//! Where a machine cannot go on.

use vstd::prelude::*;
use vstd::string::*;

use crate::chunk::{Function, OpCode};
use crate::laws::calling::{closing_takes_from_head, open_on_stack};
use crate::laws::growth::captures_only_add;
use crate::laws::instructions::{
    about_to, code_of, has_constant, inner, instructions_are_executed, nth, past, tellable,
    tellable_frame, wants_numbers,
};
use crate::machine::Machine;
use crate::semantics::{call_function, dispatch, load, take_answer, taken, Answer};
use crate::value::Value;

verus! {

/// Without a call, or behind its last instruction, a machine cannot go on.
pub proof fn instructions_are_needed(m: Machine, stop: int)
    requires
        m.frames.len() == 0 || inner(m).ip >= code_of(m, inner(m)).chunk.code@.len(),
    ensures
        dispatch(m, stop) is Stuck,
{
}

/// How many values an instruction takes or looks at, whatever they are.
pub open spec fn values_needed(op: OpCode) -> int {
    match op {
        OpCode::Negate | OpCode::Return | OpCode::Not | OpCode::Print | OpCode::Pop => 1,
        OpCode::SetLocal(_) | OpCode::JumpIfFalse(_) | OpCode::CloseUpvalue => 1,
        OpCode::Prompt | OpCode::GetProperty(_) => 1,
        OpCode::Subtract | OpCode::Multiply | OpCode::Divide | OpCode::Less => 1,
        OpCode::Greater => 1,
        OpCode::Add | OpCode::Equal | OpCode::SetProperty(_) | OpCode::Inherit => 2,
        OpCode::Call(n) => n + 1,
        _ => 0,
    }
}

/// An instruction cannot be executed without the values that it needs.
pub proof fn values_are_needed(m: Machine, op: OpCode, stop: int)
    requires
        about_to(m, op),
        0 <= m.top < values_needed(op),
    ensures
        dispatch(m, stop) is Stuck,
{
    instructions_are_executed(m, op, stop);
}

/// How many values an instruction with a name takes or looks at.
pub open spec fn values_needed_by_name(op: OpCode, index: u8) -> int {
    match op {
        OpCode::DefineGlobal(i) => if i == index {
            1
        } else {
            0
        },
        OpCode::Method(i) => if i == index {
            2
        } else {
            0
        },
        OpCode::Invoke(i, n) => if i == index {
            n + 1
        } else {
            0
        },
        OpCode::GetSuper(i) => if i == index {
            1
        } else {
            0
        },
        OpCode::SuperInvoke(i, _) => if i == index {
            1
        } else {
            0
        },
        _ => 0,
    }
}

/// An instruction with a name cannot be executed without the values that it needs.
pub proof fn values_are_needed_by_name(m: Machine, op: OpCode, stop: int, index: u8, name: usize)
    requires
        about_to(m, op),
        has_constant(m, index, Value::String(name)),
        0 <= m.top < values_needed_by_name(op, index),
    ensures
        dispatch(m, stop) is Stuck,
{
    instructions_are_executed(m, op, stop);
}

/// Whether the instruction pushes a value and takes none off.
pub open spec fn only_pushes(op: OpCode) -> bool {
    op is Nil || op is True || op is False || op is Constant || op is Agent || op is GetLocal
        || op is GetUpvalue || op is Class || op is Closure
}

/// Nothing is pushed on a full stack.
pub proof fn slots_are_needed(m: Machine, op: OpCode, stop: int)
    requires
        about_to(m, op),
        only_pushes(op),
        m.top == 4096,
        m.valid(),
    ensures
        dispatch(m, stop) is Stuck,
{
    instructions_are_executed(m, op, stop);
    if let OpCode::Closure(id) = op {
        assert(m.frame_ok(m.frames[m.frames.len() - 1]));
        if m.chunks.contains_key(id as usize) {
            let list = m.functions[m.chunks[id as usize] as int].upvalues@;
            captures_only_add(past(m), list, Seq::empty());
        }
    }
}

/// The constant that an instruction names.
pub open spec fn constant_named(op: OpCode) -> Option<u8> {
    match op {
        OpCode::Constant(index) | OpCode::Agent(index) => Some(index),
        OpCode::DefineGlobal(index) | OpCode::GetGlobal(index) => Some(index),
        OpCode::SetGlobal(index) | OpCode::Class(index) | OpCode::Method(index) => Some(index),
        OpCode::GetProperty(index) | OpCode::SetProperty(index) => Some(index),
        OpCode::GetSuper(index) => Some(index),
        OpCode::Invoke(index, _) | OpCode::SuperInvoke(index, _) => Some(index),
        _ => None,
    }
}

/// Whether the instruction comes to look for its constant.
pub open spec fn reaches_constant(m: Machine, op: OpCode) -> bool {
    match op {
        OpCode::GetProperty(_) => m.top >= 1 && nth(m, 0) is Instance,
        OpCode::SetProperty(_) => m.top >= 2 && nth(m, 1) is Instance,
        _ => true,
    }
}

/// An instruction cannot be executed without the constant that it names.
pub proof fn constants_are_needed(m: Machine, op: OpCode, stop: int, index: u8)
    requires
        about_to(m, op),
        constant_named(op) == Some(index),
        reaches_constant(m, op),
        index >= code_of(m, inner(m)).chunk.constants@.len(),
    ensures
        dispatch(m, stop) is Stuck,
{
    instructions_are_executed(m, op, stop);
}

/// A class, a method and a property are named by a string.
pub proof fn names_are_needed(m: Machine, op: OpCode, stop: int, index: u8, v: Value)
    requires
        about_to(m, op),
        constant_named(op) == Some(index),
        op is Class || op is Method || op is GetProperty || op is SetProperty || op is GetSuper
            || op is Invoke || op is SuperInvoke,
        reaches_constant(m, op),
        has_constant(m, index, v),
        !(v is String),
    ensures
        dispatch(m, stop) is Stuck,
{
    instructions_are_executed(m, op, stop);
}

/// A method is given to a class, and no class inherits from itself.
pub proof fn classes_are_needed(m: Machine, stop: int, index: u8)
    requires
        m.top >= 2,
    ensures
        about_to(m, OpCode::Method(index)) && !(nth(m, 1) is Class) ==> dispatch(m, stop) is Stuck,
        about_to(m, OpCode::Inherit) && nth(m, 1) is Class && nth(m, 0) == nth(m, 1) ==> dispatch(
            m,
            stop,
        ) is Stuck,
{
    if about_to(m, OpCode::Method(index)) {
        instructions_are_executed(m, OpCode::Method(index), stop);
    }
    if about_to(m, OpCode::Inherit) {
        instructions_are_executed(m, OpCode::Inherit, stop);
    }
}

/// Models and agents are asked about strings.
pub proof fn messages_are_needed(m: Machine, stop: int, index: u8, n: u8, name: usize)
    requires
        m.top >= n + 1,
        !(nth(m, 0) is String),
    ensures
        about_to(m, OpCode::Prompt) ==> dispatch(m, stop) is Stuck,
        about_to(m, OpCode::Invoke(index, n)) && has_constant(m, index, Value::String(name))
            && m.strings[name as int] == "run".spec_bytes() && nth(m, n as int) is Agent
            ==> dispatch(m, stop) is Stuck,
{
    if about_to(m, OpCode::Prompt) {
        instructions_are_executed(m, OpCode::Prompt, stop);
    }
    if about_to(m, OpCode::Invoke(index, n)) {
        instructions_are_executed(m, OpCode::Invoke(index, n), stop);
    }
}

/// A local variable has a slot of the stack.
pub proof fn local_slots_are_needed(m: Machine, op: OpCode, stop: int, slot: u8)
    requires
        op == OpCode::GetLocal(slot) || op == OpCode::SetLocal(slot),
        about_to(m, op),
        inner(m).slot_start + slot >= 4096,
    ensures
        dispatch(m, stop) is Stuck,
{
    instructions_are_executed(m, op, stop);
}

/// A captured variable is one of the running closure; where it is open, or is set, its slot
/// is one of the stack, and what it is set to lies on the stack.
pub proof fn variables_are_needed(m: Machine, op: OpCode, stop: int, slot: u8)
    requires
        op == OpCode::GetUpvalue(slot) || op == OpCode::SetUpvalue(slot),
        about_to(m, op),
        ({
            let own = m.closures[inner(m).closure as int].upvalues;
            let u = m.upvalues[own[slot as int] as int];
            ||| slot >= own.len()
            ||| op is GetUpvalue && u.closed is None && u.location >= 4096
            ||| op is SetUpvalue && (u.location >= 4096 || m.top <= slot)
        }),
    ensures
        dispatch(m, stop) is Stuck,
{
    instructions_are_executed(m, op, stop);
}

/// A closure is made of a function of the program.
pub proof fn functions_are_needed(m: Machine, stop: int, id: u8, chunk: usize)
    ensures
        about_to(m, OpCode::Closure(id)) && !m.chunks.contains_key(id as usize) ==> dispatch(
            m,
            stop,
        ) is Stuck,
        !m.chunks.contains_key(chunk) ==> call_function(m, chunk) is Stuck,
        m.top >= 4096 ==> call_function(m, chunk) is Stuck,
{
    if about_to(m, OpCode::Closure(id)) {
        instructions_are_executed(m, OpCode::Closure(id), stop);
    }
}

/// Jumps stay within the range of the counter of instructions.
pub proof fn jumps_are_bounded(m: Machine, stop: int, offset: u16)
    ensures
        about_to(m, OpCode::Jump(offset)) && inner(m).ip + 1 + offset > usize::MAX ==> dispatch(
            m,
            stop,
        ) is Stuck,
        about_to(m, OpCode::Loop(offset)) && offset > inner(m).ip + 1 ==> dispatch(
            m,
            stop,
        ) is Stuck,
{
    if about_to(m, OpCode::Jump(offset)) {
        instructions_are_executed(m, OpCode::Jump(offset), stop);
    }
    if about_to(m, OpCode::Loop(offset)) {
        instructions_are_executed(m, OpCode::Loop(offset), stop);
    }
}

/// The return that ends a run takes a value off besides its own.
pub proof fn last_returns_need_two_values(m: Machine, stop: int)
    requires
        about_to(m, OpCode::Return),
        m.top < 2,
        m.frames.len() - 1 == stop,
        open_on_stack(m),
    ensures
        dispatch(m, stop) is Stuck,
{
    instructions_are_executed(m, OpCode::Return, stop);
    if m.top == 1 {
        closing_takes_from_head(
            past(m).dropped(1),
            inner(m).slot_start as int,
        );
    }
}

/// An error cannot be reported where the place of a call cannot be told.
pub proof fn places_are_needed(m: Machine, op: OpCode, stop: int)
    requires
        wants_numbers(op),
        about_to(m, op),
        2 <= m.top,
        !(nth(m, 0) is Number && nth(m, 1) is Number),
        !tellable(m),
    ensures
        dispatch(m, stop) is Stuck,
{
    instructions_are_executed(m, op, stop);
    let i = choose|i: int|
        0 <= i < m.frames.len() && !tellable_frame(
            m,
            #[trigger] m.frames[i],
            if i == m.frames.len() - 1 {
                1
            } else {
                0
            },
        );
    assert(!past(m).dropped(1).frame_traceable(past(m).dropped(1).frames[i]));
    assert(!past(m).dropped(2).frame_traceable(past(m).dropped(2).frames[i]));
}

/// A host's function is given the topmost values, in order, as many as asked for or as
/// there are.
pub proof fn topmost_values_are_given(m: Machine, n: int, i: int)
    requires
        0 <= m.top <= m.stack.len(),
        0 <= n,
    ensures
        n <= m.top ==> taken(m, n).len() == n,
        n > m.top ==> taken(m, n).len() == m.top,
        0 <= i < taken(m, n).len() ==> taken(m, n)[i] == m.stack[m.top - taken(m, n).len() + i],
{
}

/// An answer is not pushed on a full stack.
pub proof fn answers_need_slots(m: Machine, v: Value, bytes: Seq<u8>)
    requires
        m.top >= 4096,
    ensures
        take_answer(m, Answer::Value(v)) is Stuck,
        take_answer(m, Answer::Text(bytes)) is Stuck,
{
}

/// Whether what a value refers to is there: an agent, a number and the like always, what
/// has a place on the heap where the heap goes that far.
pub proof fn references_are_checked(m: Machine, v: Value)
    ensures
        m.value_ok(v) <==> match v {
            Value::String(s) => 0 <= s < m.strings.len(),
            Value::Closure(c) => 0 <= c < m.closures.len(),
            Value::Class(c) => 0 <= c < m.classes.len(),
            Value::Instance(i) => 0 <= i < m.instances.len(),
            Value::BoundMethod(b) => 0 <= b < m.bound_methods.len(),
            Value::Nil | Value::Boolean(_) | Value::Number(_) => true,
            Value::NativeFunction(_) | Value::Agent(_) => true,
        },
{
}

/// A program is not loaded if a constant or a name of one of its functions refers to what
/// is not there.
pub proof fn programs_are_checked(
    m: Machine,
    list: Seq<(usize, Function)>,
    i: int,
    k: int,
)
    requires
        0 <= i < list.len(),
        ({
            let f = list[i].1;
            ||| 0 <= k < f.chunk.constants@.len() && !m.value_ok(f.chunk.constants@[k])
            ||| f.name matches Some(n) && n >= m.strings.len()
        }),
    ensures
        load(m, list) is Stuck,
{
    let f = list[i].1;
    assert(!m.function_ok(f)) by {
        if 0 <= k < f.chunk.constants@.len() && !m.value_ok(f.chunk.constants@[k]) {
            assert(f.constants()[k] == f.chunk.constants@[k]);
        }
    }
}

} // verus!
