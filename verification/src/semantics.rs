//! What instructions do.
//!
//! Each function here takes a machine and says how it goes on. `dispatch` is one
//! instruction, `run` is a number of them.

use vstd::prelude::*;
use vstd::string::*;
use vstd::utf8::*;

use crate::chunk::{Function, OpCode, Upvalue};
use crate::machine::{CallFrame, Machine, FRAME_MAX_SIZE, STACK_MAX_SIZE};
use crate::number::{below, negated};
use crate::object::{BoundMethod, ClassView, ClosureView, InstanceView, UpvalueView};
use crate::text::{decimal, shown};
use crate::value::{NativeFn, Value};

verus! {

/// An operation on two numbers whose result is rounded.
#[derive(Clone, Copy, PartialEq, Eq, Structural, Debug)]
pub enum ArithmeticOp {
    Add,
    Subtract,
    Multiply,
    Divide,
}

/// What the machine wants of its host.
pub enum Inquiry {
    /// The result of the operation, to be pushed.
    Arithmetic { op: ArithmeticOp, a: u64, b: u64 },
    /// To print the value. Nothing is to be pushed.
    Print(Value),
    /// A model's answer to the message, to be pushed as a string.
    Prompt(Seq<u8>),
    /// The result of the host's function, to be pushed.
    CallNative { function: NativeFn, arguments: Seq<Value> },
    /// The agent's answer to the message, to be pushed as a string.
    RunAgent { agent: usize, message: Seq<u8> },
}

/// How a machine goes on.
pub enum Flow {
    /// With the next instruction.
    Next(Machine),
    /// The outermost call of this run has returned the value.
    Done(Machine, Value),
    /// With an error of the given text.
    Fail(Machine, Seq<char>),
    /// Once the host has answered.
    Ask(Machine, Inquiry),
    /// Not at all: code that no compiler emits reached for what is not there, or
    /// the value stack is full.
    Stuck,
}

// ---- Parts of instructions ----

/// A runtime error with the places of all calls under way.
pub open spec fn fail(m: Machine, message: Seq<char>) -> Flow {
    if m.traceable() {
        Flow::Fail(m, m.trace(message))
    } else {
        Flow::Stuck
    }
}

pub open spec fn push(m: Machine, v: Value) -> Flow {
    if m.top < STACK_MAX_SIZE {
        Flow::Next(m.pushed(v))
    } else {
        Flow::Stuck
    }
}

/// The text of the error for a value that is not a string.
pub open spec fn not_a_string() -> Seq<char> {
    "cannot convert to string"@
}

pub open spec fn not_a_closure() -> Seq<char> {
    "cannot convert to closure"@
}

pub open spec fn not_a_class() -> Seq<char> {
    "cannot convert to class"@
}

pub open spec fn not_numbers() -> Seq<char> {
    "Operands must be numbers."@
}

pub open spec fn undefined_variable(m: Machine, name: usize) -> Seq<char> {
    "Undefined variable '"@ + shown(m.strings[name as int]) + "'."@
}

pub open spec fn undefined_property(m: Machine, name: usize) -> Seq<char> {
    "Undefined property '"@ + shown(m.strings[name as int]) + "'."@
}

pub open spec fn no_such_agent_method(m: Machine, name: usize) -> Seq<char> {
    "Agent have no methods called '"@ + shown(m.strings[name as int]) + "'."@
}

pub open spec fn wrong_arguments(expected: u8, given: u8) -> Seq<char> {
    "Expected "@ + decimal(expected as nat) + " arguments but got "@ + decimal(given as nat) + "."@
}

/// Begins a call of a closure. Its arguments, and below them the called value, lie
/// on top of the stack and become its first slots.
pub open spec fn call(m: Machine, closure: usize, arg_count: u8) -> Flow {
    let f = m.functions[m.closures[closure as int].function as int];
    if arg_count != f.arity {
        fail(m, wrong_arguments(f.arity, arg_count))
    } else if m.frames.len() == FRAME_MAX_SIZE {
        fail(m, "Stack overflow."@)
    } else if m.top < arg_count + 1 {
        Flow::Stuck
    } else {
        Flow::Next(
            Machine {
                frames: m.frames.push(
                    CallFrame { closure, ip: 0, slot_start: (m.top - arg_count - 1) as usize },
                ),
                ..m
            },
        )
    }
}

/// Calls what is to be a closure.
pub open spec fn call_method(m: Machine, method: Value, arg_count: u8) -> Flow {
    match method {
        Value::Closure(c) => call(m, c, arg_count),
        _ => Flow::Fail(m, not_a_closure()),
    }
}

/// The values that a host function is called with: as many as asked for, or as
/// many as there are.
pub open spec fn taken(m: Machine, n: int) -> Seq<Value> {
    let count = if n < m.top {
        n
    } else {
        m.top
    };
    m.stack.subrange(m.top - count, m.top)
}

/// Makes an instance of a class and calls its initializer.
pub open spec fn instantiate(m: Machine, class: usize, arg_count: u8) -> Flow {
    if m.top < arg_count + 1 {
        Flow::Stuck
    } else {
        let instance = m.instances.len() as usize;
        let m1 = m.with_instance(InstanceView { class, fields: Map::empty() }).with_slot(
            m.top - arg_count - 1,
            Value::Instance(instance),
        );
        let m2 = m1.interning("init".spec_bytes());
        let init = m1.place_of("init".spec_bytes());
        let methods = m2.classes[class as int].methods;
        if methods.contains_key(init) {
            call_method(m2, methods[init], arg_count)
        } else if arg_count != 0 {
            fail(m2, wrong_arguments(0, arg_count))
        } else {
            Flow::Next(m2)
        }
    }
}

/// Calls a value with the arguments on top of the stack.
pub open spec fn call_value(m: Machine, callee: Value, arg_count: u8) -> Flow {
    match callee {
        Value::BoundMethod(b) => {
            let bound = m.bound_methods[b as int];
            if m.top < arg_count + 1 {
                Flow::Stuck
            } else {
                call(m.with_slot(m.top - arg_count - 1, bound.receiver), bound.method, arg_count)
            }
        },
        Value::Class(class) => instantiate(m, class, arg_count),
        Value::Closure(closure) => call(m, closure, arg_count),
        Value::NativeFunction(function) => {
            let arguments = taken(m, arg_count as int);
            if m.top - arguments.len() < 1 {
                Flow::Stuck
            } else {
                Flow::Ask(
                    m.dropped(arguments.len() as int + 1),
                    Inquiry::CallNative { function, arguments },
                )
            }
        },
        Value::Agent(_) => push(m, callee),
        _ => fail(m, "Can only call functions and classes."@),
    }
}

/// Calls a method of a class by name.
pub open spec fn invoke_from_class(m: Machine, class: usize, name: usize, arg_count: u8) -> Flow {
    let methods = m.classes[class as int].methods;
    if methods.contains_key(name) {
        call_method(m, methods[name], arg_count)
    } else {
        fail(m, undefined_property(m, name))
    }
}

/// Calls what a name stands for on the receiver below the arguments: the value of
/// a field, else a method of its class; or lets an agent run.
pub open spec fn invoke(m: Machine, name: usize, arg_count: u8) -> Flow {
    if m.top < arg_count + 1 {
        Flow::Stuck
    } else {
        match m.peek(arg_count as int) {
            Value::Instance(i) => {
                let instance = m.instances[i as int];
                if instance.fields.contains_key(name) {
                    let v = instance.fields[name];
                    call_value(m.with_slot(m.top - arg_count - 1, v), v, arg_count)
                } else {
                    invoke_from_class(m, instance.class, name, arg_count)
                }
            },
            Value::Agent(agent) => {
                if m.strings[name as int] == "run".spec_bytes() {
                    match m.peek(0) {
                        Value::String(s) => Flow::Ask(
                            m.dropped(1),
                            Inquiry::RunAgent { agent, message: m.strings[s as int] },
                        ),
                        _ => Flow::Stuck,
                    }
                } else {
                    fail(m, no_such_agent_method(m, name))
                }
            },
            _ => fail(m, "Only instances have methods."@),
        }
    }
}

/// Puts a method of a class, bound to the instance on top of the stack, in the
/// place of that instance.
pub open spec fn bind_method(m: Machine, class: usize, name: usize) -> Flow {
    let methods = m.classes[class as int].methods;
    if !methods.contains_key(name) {
        fail(m, undefined_property(m, name))
    } else if m.top < 1 {
        Flow::Stuck
    } else {
        match methods[name] {
            Value::Closure(method) => {
                let bound = BoundMethod { receiver: m.peek(0), method };
                Flow::Next(
                    m.with_bound_method(bound).dropped(1).pushed(
                        Value::BoundMethod(m.bound_methods.len() as usize),
                    ),
                )
            },
            _ => Flow::Fail(m, not_a_closure()),
        }
    }
}

// ---- Captured variables ----

/// Where the search for a captured variable ends: at the first one, from place `i`
/// on, whose slot is not above the given one.
pub open spec fn search(m: Machine, slot: int, i: int) -> int
    decreases m.open.len() - i,
{
    if i < m.open.len() && m.upvalues[m.open[i] as int].location > slot {
        search(m, slot, i + 1)
    } else {
        i
    }
}

/// Whether the variable in the slot is captured already.
pub open spec fn is_captured(m: Machine, slot: int) -> bool {
    let i = search(m, slot, 0);
    i < m.open.len() && m.upvalues[m.open[i] as int].location == slot
}

/// The machine once the variable in the slot is captured.
pub open spec fn capture(m: Machine, slot: usize) -> Machine {
    if is_captured(m, slot as int) {
        m
    } else {
        Machine {
            upvalues: m.upvalues.push(UpvalueView { location: slot, closed: None }),
            open: m.open.insert(search(m, slot as int, 0), m.upvalues.len() as usize),
            ..m
        }
    }
}

/// The captured variable of the slot.
pub open spec fn captured(m: Machine, slot: usize) -> usize {
    if is_captured(m, slot as int) {
        m.open[search(m, slot as int, 0)]
    } else {
        m.upvalues.len() as usize
    }
}

/// Closes captured variables from the head of the list, up to the first one whose
/// slot lies below `last`: each takes the value of its slot and leaves the list.
pub open spec fn close(m: Machine, last: int) -> Option<Machine>
    decreases m.open.len(),
{
    if m.open.len() == 0 {
        Some(m)
    } else {
        let place = m.open[0] as int;
        let location = m.upvalues[place].location;
        if location < last {
            Some(m)
        } else if location >= STACK_MAX_SIZE {
            None
        } else {
            close(close_head(m), last)
        }
    }
}

/// Closes the first captured variable of the list.
pub open spec fn close_head(m: Machine) -> Machine {
    let place = m.open[0] as int;
    let location = m.upvalues[place].location;
    Machine {
        upvalues: m.upvalues.update(
            place,
            UpvalueView { location, closed: Some(m.stack[location as int]) },
        ),
        open: m.open.drop_first(),
        ..m
    }
}

/// Closing captured variables changes neither the stack nor the calls.
pub proof fn close_keeps_stack(m: Machine, last: int)
    ensures
        close(m, last) matches Some(after) ==> after == (Machine {
            upvalues: after.upvalues,
            open: after.open,
            ..m
        }),
    decreases m.open.len(),
{
    if m.open.len() > 0 && last <= m.upvalues[m.open[0] as int].location < STACK_MAX_SIZE {
        close_keeps_stack(close_head(m), last);
    }
}

/// Captures the variables from place `done.len()` of the list on, after those in `done`.
pub open spec fn capture_all(m: Machine, list: Seq<Upvalue>, done: Seq<usize>) -> Option<
    (Machine, Seq<usize>),
>
    decreases list.len() - done.len(),
{
    if done.len() >= list.len() {
        Some((m, done))
    } else {
        let item = list[done.len() as int];
        if item.is_local {
            let slot = m.frame().slot_start + item.index;
            if slot > usize::MAX {
                None
            } else {
                capture_all(
                    capture(m, slot as usize),
                    list,
                    done.push(captured(m, slot as usize)),
                )
            }
        } else {
            let outer = m.closures[m.frame().closure as int].upvalues;
            if item.index >= outer.len() {
                None
            } else {
                capture_all(m, list, done.push(outer[item.index as int]))
            }
        }
    }
}

// ---- Instructions. The innermost call has already moved past them. ----

pub open spec fn op_constant(m: Machine, index: u8) -> Flow {
    match m.constant(index) {
        Some(v) => push(m, v),
        None => Flow::Stuck,
    }
}

pub open spec fn op_add(m: Machine) -> Flow {
    if m.top < 2 {
        Flow::Stuck
    } else {
        match (m.peek(1), m.peek(0)) {
            (Value::Number(a), Value::Number(b)) => Flow::Ask(
                m.dropped(2),
                Inquiry::Arithmetic { op: ArithmeticOp::Add, a, b },
            ),
            (Value::String(a), Value::String(b)) => {
                let joined = encode_utf8(shown(m.strings[a as int]) + shown(m.strings[b as int]));
                Flow::Next(
                    m.dropped(2).interning(joined).pushed(
                        Value::String(m.place_of(joined)),
                    ),
                )
            },
            _ => fail(m, "Operands must be two numbers or two strings."@),
        }
    }
}

/// The operands of an operation on numbers, or how the machine goes on without them.
pub open spec fn operands(m: Machine) -> Result<(u64, u64), Flow> {
    if m.top < 1 {
        Err(Flow::Stuck)
    } else if let Value::Number(b) = m.peek(0) {
        if m.top < 2 {
            Err(Flow::Stuck)
        } else if let Value::Number(a) = m.peek(1) {
            Ok((a, b))
        } else {
            Err(fail(m.dropped(2), not_numbers()))
        }
    } else {
        Err(fail(m.dropped(1), not_numbers()))
    }
}

pub open spec fn op_arithmetic(m: Machine, op: ArithmeticOp) -> Flow {
    match operands(m) {
        Ok((a, b)) => Flow::Ask(m.dropped(2), Inquiry::Arithmetic { op, a, b }),
        Err(flow) => flow,
    }
}

pub open spec fn op_greater(m: Machine) -> Flow {
    match operands(m) {
        Ok((a, b)) => Flow::Next(m.dropped(2).pushed(Value::Boolean(below(b, a)))),
        Err(flow) => flow,
    }
}

pub open spec fn op_less(m: Machine) -> Flow {
    match operands(m) {
        Ok((a, b)) => Flow::Next(m.dropped(2).pushed(Value::Boolean(below(a, b)))),
        Err(flow) => flow,
    }
}

pub open spec fn op_negate(m: Machine) -> Flow {
    if m.top < 1 {
        Flow::Stuck
    } else if let Value::Number(v) = m.peek(0) {
        Flow::Next(m.dropped(1).pushed(Value::Number(negated(v))))
    } else {
        fail(m.dropped(1), "Operand must be a number."@)
    }
}

pub open spec fn op_return(m: Machine, stop: int) -> Flow {
    if m.top < 1 {
        Flow::Stuck
    } else {
        let value = m.peek(0);
        let slot_start = m.frame().slot_start;
        match close(m.dropped(1), slot_start as int) {
            None => Flow::Stuck,
            Some(closed) => {
                let left = Machine { frames: closed.frames.drop_last(), ..closed };
                if left.frames.len() == stop {
                    if left.top < 1 {
                        Flow::Stuck
                    } else {
                        Flow::Done(left.dropped(1), value)
                    }
                } else {
                    Flow::Next(Machine { top: slot_start as int, ..left }.pushed(value))
                }
            },
        }
    }
}

pub open spec fn op_not(m: Machine) -> Flow {
    if m.top < 1 {
        Flow::Stuck
    } else {
        Flow::Next(m.dropped(1).pushed(Value::Boolean(m.peek(0).falsy())))
    }
}

pub open spec fn op_equal(m: Machine) -> Flow {
    if m.top < 2 {
        Flow::Stuck
    } else {
        Flow::Next(m.dropped(2).pushed(Value::Boolean(m.peek(1).same(m.peek(0)))))
    }
}

pub open spec fn op_print(m: Machine) -> Flow {
    if m.top < 1 {
        Flow::Stuck
    } else {
        Flow::Ask(m.dropped(1), Inquiry::Print(m.peek(0)))
    }
}

pub open spec fn op_pop(m: Machine) -> Flow {
    if m.top < 1 {
        Flow::Stuck
    } else {
        Flow::Next(m.dropped(1))
    }
}

pub open spec fn op_define_global(m: Machine, index: u8) -> Flow {
    match m.constant(index) {
        None => Flow::Stuck,
        Some(Value::String(name)) => if m.top < 1 {
            Flow::Stuck
        } else {
            Flow::Next(m.with_global(name, m.peek(0)).dropped(1))
        },
        Some(_) => Flow::Fail(m, not_a_string()),
    }
}

pub open spec fn op_get_global(m: Machine, index: u8) -> Flow {
    match m.constant(index) {
        None => Flow::Stuck,
        Some(Value::String(name)) => if m.globals.contains_key(name) {
            push(m, m.globals[name])
        } else {
            fail(m, undefined_variable(m, name))
        },
        Some(_) => Flow::Fail(m, not_a_string()),
    }
}

pub open spec fn op_set_global(m: Machine, index: u8) -> Flow {
    match m.constant(index) {
        None => Flow::Stuck,
        Some(Value::String(name)) => if !m.globals.contains_key(name) {
            fail(m, undefined_variable(m, name))
        } else if m.top < 1 {
            Flow::Stuck
        } else {
            Flow::Next(m.with_global(name, m.peek(0)))
        },
        Some(_) => Flow::Fail(m, not_a_string()),
    }
}

pub open spec fn op_get_local(m: Machine, slot: u8) -> Flow {
    let i = m.frame().slot_start + slot;
    if i >= STACK_MAX_SIZE {
        Flow::Stuck
    } else {
        push(m, m.stack[i])
    }
}

pub open spec fn op_set_local(m: Machine, slot: u8) -> Flow {
    let i = m.frame().slot_start + slot;
    if m.top < 1 || i >= STACK_MAX_SIZE {
        Flow::Stuck
    } else {
        Flow::Next(m.with_slot(i, m.peek(0)))
    }
}

pub open spec fn op_jump(m: Machine, offset: u16) -> Flow {
    if m.frame().ip + offset > usize::MAX {
        Flow::Stuck
    } else {
        Flow::Next(m.with_ip(m.frame().ip + offset))
    }
}

pub open spec fn op_jump_if_false(m: Machine, offset: u16) -> Flow {
    if m.top < 1 {
        Flow::Stuck
    } else if m.peek(0).falsy() {
        op_jump(m, offset)
    } else {
        Flow::Next(m)
    }
}

pub open spec fn op_loop(m: Machine, offset: u16) -> Flow {
    if m.frame().ip < offset {
        Flow::Stuck
    } else {
        Flow::Next(m.with_ip(m.frame().ip - offset))
    }
}

pub open spec fn op_call(m: Machine, arg_count: u8) -> Flow {
    if m.top < arg_count + 1 {
        Flow::Stuck
    } else {
        call_value(m, m.peek(arg_count as int), arg_count)
    }
}

pub open spec fn op_closure(m: Machine, chunk_id: u8) -> Flow {
    if !m.chunks.contains_key(chunk_id as usize) {
        Flow::Stuck
    } else {
        let function = m.chunks[chunk_id as usize];
        match capture_all(m, m.functions[function as int].upvalues@, Seq::empty()) {
            None => Flow::Stuck,
            Some((m1, upvalues)) => push(
                m1.with_closure(ClosureView { function, upvalues }),
                Value::Closure(m1.closures.len() as usize),
            ),
        }
    }
}

/// The captured variables of the running closure.
pub open spec fn captured_here(m: Machine) -> Seq<usize> {
    m.closures[m.frame().closure as int].upvalues
}

pub open spec fn op_get_upvalue(m: Machine, slot: u8) -> Flow {
    if slot >= captured_here(m).len() {
        Flow::Stuck
    } else {
        let u = m.upvalues[captured_here(m)[slot as int] as int];
        match u.closed {
            Some(v) => push(m, v),
            None => if u.location >= STACK_MAX_SIZE {
                Flow::Stuck
            } else {
                push(m, m.stack[u.location as int])
            },
        }
    }
}

/// Stores the value that lies `slot` below the topmost one, in the variable and
/// in the stack slot that the variable had.
pub open spec fn op_set_upvalue(m: Machine, slot: u8) -> Flow {
    if slot >= captured_here(m).len() || m.top < slot + 1 {
        Flow::Stuck
    } else {
        let place = captured_here(m)[slot as int] as int;
        let location = m.upvalues[place].location;
        let v = m.peek(slot as int);
        if location >= STACK_MAX_SIZE {
            Flow::Stuck
        } else {
            Flow::Next(
                m.with_upvalue(
                    place,
                    UpvalueView { location: slot as usize, closed: Some(v) },
                ).with_slot(location as int, v),
            )
        }
    }
}

pub open spec fn op_close_upvalue(m: Machine) -> Flow {
    if m.top < 1 {
        Flow::Stuck
    } else {
        match close(m, m.top - 1) {
            None => Flow::Stuck,
            Some(closed) => Flow::Next(closed.dropped(1)),
        }
    }
}

pub open spec fn op_class(m: Machine, index: u8) -> Flow {
    match m.constant(index) {
        Some(Value::String(name)) => push(
            m.with_class(ClassView { name, methods: Map::empty() }),
            Value::Class(m.classes.len() as usize),
        ),
        _ => Flow::Stuck,
    }
}

pub open spec fn op_get_property(m: Machine, index: u8) -> Flow {
    if m.top < 1 {
        Flow::Stuck
    } else if let Value::Instance(i) = m.peek(0) {
        match m.constant(index) {
            Some(Value::String(name)) => {
                let instance = m.instances[i as int];
                if instance.fields.contains_key(name) {
                    Flow::Next(m.dropped(1).pushed(instance.fields[name]))
                } else {
                    bind_method(m, instance.class, name)
                }
            },
            _ => Flow::Stuck,
        }
    } else {
        fail(m, "Only instances have properties."@)
    }
}

pub open spec fn op_set_property(m: Machine, index: u8) -> Flow {
    if m.top < 2 {
        Flow::Stuck
    } else if let Value::Instance(i) = m.peek(1) {
        match m.constant(index) {
            Some(Value::String(name)) => {
                let v = m.peek(0);
                Flow::Next(
                    m.with_fields(i as int, m.instances[i as int].fields.insert(name, v)).dropped(
                        2,
                    ).pushed(v),
                )
            },
            _ => Flow::Stuck,
        }
    } else {
        fail(m, "Only instances have fields."@)
    }
}

/// Gives the class below the topmost value that value as a method.
pub open spec fn define_method(m: Machine, name: usize) -> Flow {
    if m.top < 2 {
        Flow::Stuck
    } else if let Value::Class(c) = m.peek(1) {
        Flow::Next(
            m.with_methods(
                c as int,
                m.classes[c as int].methods.insert(name, m.peek(0)),
            ).dropped(1),
        )
    } else {
        Flow::Stuck
    }
}

pub open spec fn op_method(m: Machine, index: u8) -> Flow {
    match m.constant(index) {
        Some(Value::String(name)) => define_method(m, name),
        _ => Flow::Stuck,
    }
}

pub open spec fn op_invoke(m: Machine, index: u8, arg_count: u8) -> Flow {
    match m.constant(index) {
        Some(Value::String(name)) => invoke(m, name, arg_count),
        _ => Flow::Stuck,
    }
}

pub open spec fn op_inherit(m: Machine) -> Flow {
    if m.top < 2 {
        Flow::Stuck
    } else if let Value::Class(superclass) = m.peek(1) {
        if let Value::Class(subclass) = m.peek(0) {
            if subclass == superclass {
                Flow::Stuck
            } else {
                Flow::Next(
                    m.with_methods(
                        subclass as int,
                        m.classes[subclass as int].methods.union_prefer_right(
                            m.classes[superclass as int].methods,
                        ),
                    ).dropped(1),
                )
            }
        } else {
            Flow::Fail(m, not_a_class())
        }
    } else {
        fail(m, "Superclass must be a class."@)
    }
}

pub open spec fn op_get_super(m: Machine, index: u8) -> Flow {
    match m.constant(index) {
        Some(Value::String(name)) => if m.top < 1 {
            Flow::Stuck
        } else if let Value::Class(superclass) = m.peek(0) {
            bind_method(m.dropped(1), superclass, name)
        } else {
            Flow::Fail(m.dropped(1), not_a_class())
        },
        _ => Flow::Stuck,
    }
}

pub open spec fn op_super_invoke(m: Machine, index: u8, arg_count: u8) -> Flow {
    match m.constant(index) {
        Some(Value::String(name)) => if m.top < 1 {
            Flow::Stuck
        } else if let Value::Class(superclass) = m.peek(0) {
            invoke_from_class(m.dropped(1), superclass, name, arg_count)
        } else {
            Flow::Fail(m.dropped(1), not_a_class())
        },
        _ => Flow::Stuck,
    }
}

pub open spec fn op_prompt(m: Machine) -> Flow {
    if m.top < 1 {
        Flow::Stuck
    } else if let Value::String(s) = m.peek(0) {
        Flow::Ask(m.dropped(1), Inquiry::Prompt(m.strings[s as int]))
    } else {
        Flow::Stuck
    }
}

/// What an instruction does, once the innermost call has moved past it.
pub open spec fn execute(m: Machine, op: OpCode, stop: int) -> Flow {
    match op {
        OpCode::Constant(index) => op_constant(m, index),
        OpCode::Add => op_add(m),
        OpCode::Subtract => op_arithmetic(m, ArithmeticOp::Subtract),
        OpCode::Multiply => op_arithmetic(m, ArithmeticOp::Multiply),
        OpCode::Divide => op_arithmetic(m, ArithmeticOp::Divide),
        OpCode::Negate => op_negate(m),
        OpCode::Return => op_return(m, stop),
        OpCode::Nil => push(m, Value::Nil),
        OpCode::True => push(m, Value::Boolean(true)),
        OpCode::False => push(m, Value::Boolean(false)),
        OpCode::Not => op_not(m),
        OpCode::Equal => op_equal(m),
        OpCode::Greater => op_greater(m),
        OpCode::Less => op_less(m),
        OpCode::Print => op_print(m),
        OpCode::Pop => op_pop(m),
        OpCode::DefineGlobal(index) => op_define_global(m, index),
        OpCode::GetGlobal(index) => op_get_global(m, index),
        OpCode::SetGlobal(index) => op_set_global(m, index),
        OpCode::GetLocal(slot) => op_get_local(m, slot),
        OpCode::SetLocal(slot) => op_set_local(m, slot),
        OpCode::JumpIfFalse(offset) => op_jump_if_false(m, offset),
        OpCode::Jump(offset) => op_jump(m, offset),
        OpCode::Loop(offset) => op_loop(m, offset),
        OpCode::Call(arg_count) => op_call(m, arg_count),
        OpCode::Closure(chunk_id) => op_closure(m, chunk_id),
        OpCode::GetUpvalue(slot) => op_get_upvalue(m, slot),
        OpCode::SetUpvalue(slot) => op_set_upvalue(m, slot),
        OpCode::CloseUpvalue => op_close_upvalue(m),
        OpCode::Class(index) => op_class(m, index),
        OpCode::GetProperty(index) => op_get_property(m, index),
        OpCode::SetProperty(index) => op_set_property(m, index),
        OpCode::Method(index) => op_method(m, index),
        OpCode::Invoke(index, arg_count) => op_invoke(m, index, arg_count),
        OpCode::Inherit => op_inherit(m),
        OpCode::GetSuper(index) => op_get_super(m, index),
        OpCode::SuperInvoke(index, arg_count) => op_super_invoke(m, index, arg_count),
        OpCode::Prompt => op_prompt(m),
        OpCode::Agent(index) => op_constant(m, index),
    }
}

/// The next instruction of the innermost call. A return that leaves `stop` calls
/// under way ends the run.
pub open spec fn dispatch(m: Machine, stop: int) -> Flow {
    if m.frames.len() == 0 || m.frame().ip >= m.running().code().len() {
        Flow::Stuck
    } else {
        execute(m.with_ip(m.frame().ip + 1), m.running().code()[m.frame().ip as int], stop)
    }
}

/// At most `n` instructions, at least one. `Flow::Next` says that `n` of them have
/// been executed and more are to come.
pub open spec fn run(m: Machine, stop: int, n: nat) -> Flow
    decreases n,
{
    match dispatch(m, stop) {
        Flow::Next(next) => if n <= 1 {
            Flow::Next(next)
        } else {
            run(next, stop, (n - 1) as nat)
        },
        flow => flow,
    }
}

/// How much of a budget those instructions take.
pub open spec fn cost(m: Machine, stop: int, n: nat) -> nat
    decreases n,
{
    match dispatch(m, stop) {
        Flow::Next(next) => if n <= 1 {
            1
        } else {
            1 + cost(next, stop, (n - 1) as nat)
        },
        Flow::Ask(_, _) => 1,
        _ => 0,
    }
}

/// How many instructions a budget pays for: at least one is executed.
pub open spec fn rounds(budget: int) -> nat {
    if budget < 1 {
        1
    } else {
        budget as nat
    }
}

/// Begins a call of a function of the program, with the arguments it expects on
/// top of the stack.
pub open spec fn call_function(m: Machine, chunk_id: usize) -> Flow {
    if !m.chunks.contains_key(chunk_id) || m.top >= STACK_MAX_SIZE {
        Flow::Stuck
    } else {
        let function = m.chunks[chunk_id];
        let f = m.functions[function as int];
        let closure = m.closures.len() as usize;
        call(
            with_fresh_closure(m, function).pushed(Value::Closure(closure)),
            closure,
            f.arity,
        )
    }
}

/// Calls a function of the program and executes at most `n` instructions, until the
/// call has returned.
pub open spec fn eval_function(m: Machine, chunk_id: usize, n: nat) -> Flow {
    match call_function(m, chunk_id) {
        Flow::Next(called) => run(called, m.frames.len() as int, n),
        flow => flow,
    }
}

/// How much of a budget that takes.
pub open spec fn eval_cost(m: Machine, chunk_id: usize, n: nat) -> nat {
    match call_function(m, chunk_id) {
        Flow::Next(called) => cost(called, m.frames.len() as int, n),
        _ => 0,
    }
}

/// Goes on with a value that the host answered with.
pub open spec fn resume_value(m: Machine, v: Value) -> Flow {
    if m.value_ok(v) {
        push(m, v)
    } else {
        Flow::Stuck
    }
}

/// Goes on with a text that the host answered with.
pub open spec fn resume_text(m: Machine, bytes: Seq<u8>) -> Flow {
    push(m.interning(bytes), Value::String(m.place_of(bytes)))
}

/// A host's answer to a request.
pub enum Answer {
    /// The value was printed. Nothing is to be pushed.
    Printed,
    /// A value to be pushed.
    Value(Value),
    /// The bytes of a string to be pushed.
    Text(Seq<u8>),
}

/// Goes on with what the host answered.
pub open spec fn take_answer(m: Machine, answer: Answer) -> Flow {
    match answer {
        Answer::Printed => Flow::Next(m),
        Answer::Value(v) => resume_value(m, v),
        Answer::Text(bytes) => resume_text(m, bytes),
    }
}

/// Goes on with what the host answered, and with more instructions as long as the
/// budget lasts.
pub open spec fn go_on(m: Machine, stop: int, answer: Answer, budget: int) -> Flow {
    match take_answer(m, answer) {
        Flow::Next(next) => if budget > 0 {
            run(next, stop, rounds(budget))
        } else {
            Flow::Next(next)
        },
        flow => flow,
    }
}

/// How much of the budget those instructions take.
pub open spec fn go_on_cost(m: Machine, stop: int, answer: Answer, budget: int) -> nat {
    match take_answer(m, answer) {
        Flow::Next(next) => if budget > 0 {
            cost(next, stop, rounds(budget))
        } else {
            0
        },
        _ => 0,
    }
}

/// One instruction, where a request takes the first of the answers; and the answers
/// that are left.
pub open spec fn turn(m: Machine, stop: int, answers: Seq<Answer>) -> (Flow, Seq<Answer>) {
    match dispatch(m, stop) {
        Flow::Ask(asking, inquiry) => if answers.len() == 0 {
            (Flow::Ask(asking, inquiry), answers)
        } else {
            (take_answer(asking, answers[0]), answers.drop_first())
        },
        flow => (flow, answers),
    }
}

/// At most `n` instructions, at least one, where each request takes one of the
/// answers; and the answers that are left. It stops at a request for which there is
/// none.
pub open spec fn answered_run(m: Machine, stop: int, n: nat, answers: Seq<Answer>) -> (
    Flow,
    Seq<Answer>,
)
    decreases n,
{
    match turn(m, stop, answers) {
        (Flow::Next(next), rest) => if n <= 1 {
            (Flow::Next(next), rest)
        } else {
            answered_run(next, stop, (n - 1) as nat, rest)
        },
        end => end,
    }
}

/// How much of a budget those instructions take.
pub open spec fn answered_cost(m: Machine, stop: int, n: nat, answers: Seq<Answer>) -> nat
    decreases n,
{
    match turn(m, stop, answers) {
        (Flow::Next(next), rest) => if n <= 1 {
            1
        } else {
            1 + answered_cost(next, stop, (n - 1) as nat, rest)
        },
        _ => if dispatch(m, stop) is Ask {
            1
        } else {
            0
        },
    }
}

/// The machine with the host's function under a name.
pub open spec fn with_native(m: Machine, name: Seq<u8>, function: NativeFn) -> Machine {
    m.interning(name).with_global(m.place_of(name), Value::NativeFunction(function))
}

/// The machine with all functions that the host offers.
pub open spec fn with_builtins(m: Machine) -> Machine {
    with_native(m, "clock".spec_bytes(), NativeFn::Clock)
}

/// Where the functions of a program are put: in order, from `base` on. Of two with
/// one number, the later counts.
pub open spec fn numbered(list: Seq<(usize, Function)>, base: int) -> Map<usize, usize>
    decreases list.len(),
{
    if list.len() == 0 {
        Map::empty()
    } else {
        numbered(list.drop_last(), base).insert(
            list.last().0,
            (base + list.len() - 1) as usize,
        )
    }
}

/// The machine with the functions of a program on its heap.
pub open spec fn with_functions(m: Machine, list: Seq<(usize, Function)>) -> Machine {
    Machine { functions: m.functions + list.map_values(|item: (usize, Function)| item.1), ..m }
}

/// Whether the constants and names of the functions refer to what is there.
pub open spec fn functions_ok(m: Machine, list: Seq<(usize, Function)>) -> bool {
    forall|i: int| 0 <= i < list.len() ==> m.function_ok((#[trigger] list[i]).1)
}

/// The machine with a program in place of the one it had.
pub open spec fn with_program(m: Machine, list: Seq<(usize, Function)>) -> Machine {
    Machine { chunks: numbered(list, m.functions.len() as int), ..with_functions(m, list) }
}

/// Loads a program and calls its function 0.
pub open spec fn load(m: Machine, list: Seq<(usize, Function)>) -> Flow {
    if functions_ok(m, list) {
        call_function(with_builtins(with_program(m, list)), 0)
    } else {
        Flow::Stuck
    }
}

/// The machine with a closure of the function whose captured variables are all new.
pub open spec fn with_fresh_closure(m: Machine, function: usize) -> Machine {
    let n = m.functions[function as int].upvalues@.len();
    let first = m.upvalues.len();
    Machine {
        upvalues: m.upvalues + Seq::new(n, |i: int| UpvalueView { location: 0, closed: None }),
        ..m
    }.with_closure(
        ClosureView { function, upvalues: Seq::new(n, |i: int| (first + i) as usize) },
    )
}

} // verus!
