//! Calls, returns and requests.

use vstd::prelude::*;

use crate::chunk::OpCode;
use crate::laws::growth::calls;
use crate::machine::{CallFrame, Machine, FRAME_MAX_SIZE, STACK_MAX_SIZE};
use crate::semantics::{
    call, close_keeps_stack, dispatch, execute, invoke, op_call, op_return, resume_text,
    resume_value, Flow, Inquiry,
};
use crate::value::{NativeFn, Value};

verus! {

/// The machine with a value in place of a called one and its `arg_count` arguments.
pub open spec fn answered(m: Machine, arg_count: u8, v: Value) -> Machine {
    Machine { top: m.top - arg_count - 1, ..m }.pushed(v)
}

/// A function of the host is called with the arguments on top of the stack, the
/// first one lowest; its result takes the place of the function and the arguments,
/// and nothing else changes.
pub proof fn native_calls_restore_stack(m: Machine, function: NativeFn, arg_count: u8, v: Value)
    requires
        m.valid(),
        m.top >= arg_count + 1,
        m.peek(arg_count as int) == Value::NativeFunction(function),
        m.value_ok(v),
    ensures
        op_call(m, arg_count) matches Flow::Ask(asking, inquiry) && {
            &&& inquiry == (Inquiry::CallNative {
                function,
                arguments: m.stack.subrange(m.top - arg_count, m.top),
            })
            &&& resume_value(asking, v) == Flow::Next(answered(m, arg_count, v))
        },
{
}

/// A closure that is called with the arguments it expects begins at its first
/// instruction, with the called value and the arguments in its first slots.
pub proof fn calls_begin(m: Machine, closure: usize, arg_count: u8, i: int)
    requires
        m.valid(),
        closure < m.closures.len(),
        m.functions[m.closures[closure as int].function as int].arity == arg_count,
        m.frames.len() < FRAME_MAX_SIZE,
        m.top >= arg_count + 1,
        0 <= i <= arg_count,
    ensures
        call(m, closure, arg_count) matches Flow::Next(a) && {
            &&& a.frames.drop_last() == m.frames
            &&& a.frame() == (CallFrame {
                closure,
                ip: 0,
                slot_start: (m.top - arg_count - 1) as usize,
            })
            &&& a.stack[a.frame().slot_start + i] == m.peek(arg_count - i)
            &&& a.top == m.top
        },
{
}

/// A return takes the innermost call away and puts its value in the place of the
/// called value and the arguments; slots below are as they were. A call that was
/// begun by `call` thus gives the caller one value for those that it had given.
pub proof fn returns_replace_calls(m: Machine, stop: int)
    requires
        m.valid(),
        m.frames.len() > 0,
        m.frames.len() - 1 != stop,
    ensures
        op_return(m, stop) matches Flow::Next(a) ==> {
            &&& a.frames == m.frames.drop_last()
            &&& a.top == m.frame().slot_start + 1
            &&& a.peek(0) == m.peek(0)
            &&& forall|i: int|
                0 <= i < m.frame().slot_start ==> #[trigger] a.stack[i] == m.stack[i]
        },
        !(op_return(m, stop) is Done),
{
    assert(m.frame_ok(m.frames[m.frames.len() - 1]));
    close_keeps_stack(m.dropped(1), m.frame().slot_start as int);
}

/// The return that leaves `stop` calls under way ends the run with its value.
pub proof fn last_return_ends_run(m: Machine, stop: int)
    requires
        m.valid(),
        m.frames.len() > 0,
        m.frames.len() - 1 == stop,
    ensures
        op_return(m, stop) matches Flow::Done(a, v) ==> {
            &&& a.frames == m.frames.drop_last()
            &&& v == m.peek(0)
            &&& a.top == m.top - 2
        },
        !(op_return(m, stop) is Next),
{
    close_keeps_stack(m.dropped(1), m.frame().slot_start as int);
}

/// Whether a request that takes an answer leaves room for it.
spec fn leaves_room(flow: Flow) -> bool {
    flow matches Flow::Ask(a, inquiry) ==> inquiry is Print || a.top < STACK_MAX_SIZE
}

proof fn invocations_leave_room(m: Machine, name: usize, arg_count: u8)
    requires
        m.valid(),
    ensures
        leaves_room(invoke(m, name, arg_count)),
{
}

proof fn call_instructions_leave_room(m: Machine, op: OpCode, stop: int)
    requires
        m.valid(),
        calls(op),
    ensures
        leaves_room(execute(m, op, stop)),
{
    match op {
        OpCode::Invoke(index, arg_count) => {
            match m.constant(index) {
                Some(Value::String(name)) => invocations_leave_room(m, name, arg_count),
                _ => {},
            }
        },
        _ => {},
    }
}

proof fn other_instructions_leave_room(m: Machine, op: OpCode, stop: int)
    requires
        m.valid(),
        !calls(op),
    ensures
        leaves_room(execute(m, op, stop)),
{
}

/// A machine that asks for something can go on with any answer whose parts are
/// there, and with any text.
pub proof fn answers_are_taken(m: Machine, stop: int, v: Value, text: Seq<u8>)
    requires
        m.valid(),
    ensures
        dispatch(m, stop) matches Flow::Ask(a, inquiry) ==> inquiry is Print || {
            &&& a.value_ok(v) ==> resume_value(a, v) == Flow::Next(a.pushed(v))
            &&& resume_text(a, text) == Flow::Next(
                a.interning(text).pushed(Value::String(a.place_of(text))),
            )
        },
{
    if m.frames.len() > 0 && m.frame().ip < m.running().code().len() {
        let moved = m.with_ip(m.frame().ip + 1);
        let op = m.running().code()[m.frame().ip as int];
        assert(m.frame_ok(m.frames[m.frames.len() - 1]));
        assert(moved.valid());
        if calls(op) {
            call_instructions_leave_room(moved, op, stop);
        } else {
            other_instructions_leave_room(moved, op, stop);
        }
    }
}

} // verus!
