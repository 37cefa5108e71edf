//! What instructions do to the stack, to variables and to the place of a call, told slot
//! by slot.

use vstd::prelude::*;
use vstd::utf8::*;

use crate::chunk::{Function, OpCode};
use crate::machine::{CallFrame, Machine};
use crate::semantics::{dispatch, execute, ArithmeticOp, Flow, Inquiry};
use crate::text::{decimal, shown};
use crate::value::Value;

verus! {

// ---- Before and after ----

/// The innermost call.
pub open spec fn inner(m: Machine) -> CallFrame {
    m.frames[m.frames.len() - 1]
}

/// The function that a call runs.
pub open spec fn code_of(m: Machine, f: CallFrame) -> Function {
    m.functions[m.closures[f.closure as int].function as int]
}

/// Whether the innermost call is about to execute the instruction.
pub open spec fn about_to(m: Machine, op: OpCode) -> bool {
    &&& m.frames.len() > 0
    &&& inner(m).ip < code_of(m, inner(m)).chunk.code@.len()
    &&& code_of(m, inner(m)).chunk.code@[inner(m).ip as int] == op
}

/// Whether the function of the innermost call has the constant.
pub open spec fn has_constant(m: Machine, index: u8, v: Value) -> bool {
    &&& index < code_of(m, inner(m)).chunk.constants@.len()
    &&& code_of(m, inner(m)).chunk.constants@[index as int] == v
}

/// The value that lies `n` below the topmost one.
pub open spec fn nth(m: Machine, n: int) -> Value {
    m.stack[m.top - 1 - n]
}

/// Whether the calls are those that they were, the innermost at the given instruction.
pub open spec fn goes_to(m: Machine, after: Machine, ip: int) -> bool {
    &&& after.frames.len() == m.frames.len()
    &&& forall|i: int| 0 <= i < m.frames.len() - 1 ==> #[trigger] after.frames[i] == m.frames[i]
    &&& inner(after).closure == inner(m).closure
    &&& inner(after).slot_start == inner(m).slot_start
    &&& inner(after).ip == ip
}

/// Whether strings, variables, code and objects are as they were.
pub open spec fn same_heap(m: Machine, after: Machine) -> bool {
    &&& after.strings == m.strings
    &&& after.globals == m.globals
    &&& after.chunks == m.chunks
    &&& after.functions == m.functions
    &&& after.closures == m.closures
    &&& after.upvalues == m.upvalues
    &&& after.open == m.open
    &&& after.classes == m.classes
    &&& after.instances == m.instances
    &&& after.bound_methods == m.bound_methods
}

/// Whether `given` has taken the place of the `taken` topmost values, and all other
/// slots are as they were.
pub open spec fn replaced(m: Machine, after: Machine, taken: int, given: Seq<Value>) -> bool {
    &&& after.top == m.top - taken + given.len()
    &&& after.stack.len() == m.stack.len()
    &&& forall|i: int|
        0 <= i < given.len() ==> after.stack[m.top - taken + i] == #[trigger] given[i]
    &&& forall|i: int|
        0 <= i < m.stack.len() && !(m.top - taken <= i < m.top - taken + given.len())
            ==> #[trigger] after.stack[i] == m.stack[i]
}

/// Whether the next instruction follows, `given` has taken the place of the `taken`
/// topmost values, and nothing else has changed.
pub open spec fn computes(m: Machine, flow: Flow, taken: int, given: Seq<Value>) -> bool {
    flow matches Flow::Next(a) && goes_to(m, a, inner(m).ip + 1) && same_heap(m, a) && replaced(
        m,
        a,
        taken,
        given,
    )
}

/// Whether the host is asked, the `taken` topmost values are gone, and nothing else has
/// changed.
pub open spec fn asks(m: Machine, flow: Flow, taken: int, inquiry: Inquiry) -> bool {
    flow matches Flow::Ask(a, q) && q == inquiry && goes_to(m, a, inner(m).ip + 1) && same_heap(
        m,
        a,
    ) && replaced(m, a, taken, Seq::empty())
}

/// The lines of a message that tell the place of a call: the line of the instruction
/// before the one it is about to execute, and the name of its function.
pub open spec fn place_text(m: Machine, f: CallFrame) -> Seq<char> {
    "\n[line "@ + decimal(code_of(m, f).chunk.lines@[f.ip - 1] as nat) + "] in "@ + (match code_of(
        m,
        f,
    ).name {
        Some(n) => decode_utf8(m.strings[n as int]),
        None => "script"@,
    }) + "\n"@
}

/// The places of the outermost `n` calls, the innermost of them first.
pub open spec fn report(m: Machine, n: int) -> Seq<char>
    decreases n,
{
    if n <= 0 {
        Seq::empty()
    } else {
        place_text(m, m.frames[n - 1]) + report(m, n - 1)
    }
}

/// Whether the place of a call can be told once it has executed `more` instructions.
pub open spec fn tellable_frame(m: Machine, f: CallFrame, more: int) -> bool {
    &&& 1 <= f.ip + more <= code_of(m, f).chunk.lines@.len()
    &&& code_of(m, f).name matches Some(n) ==> valid_utf8(m.strings[n as int])
}

/// Whether the places of all calls can be told once the innermost has executed its
/// instruction.
pub open spec fn tellable(m: Machine) -> bool {
    forall|i: int|
        0 <= i < m.frames.len() ==> tellable_frame(
            m,
            #[trigger] m.frames[i],
            if i == m.frames.len() - 1 {
                1
            } else {
                0
            },
        )
}

/// Whether the program fails with the message and the places of all calls, the `taken`
/// topmost values are gone, and nothing else has changed.
pub open spec fn fails(m: Machine, flow: Flow, taken: int, message: Seq<char>) -> bool {
    flow matches Flow::Fail(a, text) && text == message + report(a, a.frames.len() as int)
        && goes_to(m, a, inner(m).ip + 1) && same_heap(m, a) && replaced(m, a, taken, Seq::empty())
}

/// The machine that has moved past its instruction.
pub open spec fn past(m: Machine) -> Machine {
    m.with_ip(m.frame().ip + 1)
}

/// An instruction is executed by the machine that has moved past it.
pub proof fn instructions_are_executed(m: Machine, op: OpCode, stop: int)
    requires
        about_to(m, op),
    ensures
        dispatch(m, stop) == execute(past(m), op, stop),
        goes_to(m, past(m), inner(m).ip + 1),
        same_heap(m, past(m)),
        past(m).stack == m.stack,
        past(m).top == m.top,
        past(m).frame() == inner(past(m)),
        m.frame() == inner(m),
        past(m).running() == code_of(m, inner(m)),
        code_of(past(m), inner(past(m))) == code_of(m, inner(m)),
{
    assert(code_of(m, inner(m)).chunk.code.len() <= usize::MAX);
}

/// The text of a runtime error of a machine whose calls can be told.
pub proof fn errors_are_reported(m: Machine, op: OpCode, stop: int, message: Seq<char>, top: int)
    requires
        about_to(m, op),
        tellable(m),
    ensures
        ({
            let a = Machine { top, ..past(m) };
            &&& a.traceable()
            &&& a.trace(message) == message + report(a, a.frames.len() as int)
        }),
{
    instructions_are_executed(m, op, stop);
    let a = Machine { top, ..past(m) };
    assert forall|i: int| 0 <= i < a.frames.len() implies a.frame_traceable(
        #[trigger] a.frames[i],
    ) by {
        assert(tellable_frame(
            m,
            m.frames[i],
            if i == m.frames.len() - 1 {
                1
            } else {
                0
            },
        ));
    }
    report_is_trace(a, message, a.frames.len() as int);
}

/// A message is followed by the report.
pub proof fn report_is_trace(m: Machine, text: Seq<char>, n: int)
    requires
        n <= m.frames.len(),
    ensures
        m.trace_from(text, n) == text + report(m, n),
    decreases n,
{
    if n > 0 {
        let entry = place_text(m, m.frames[n - 1]);
        assert(m.frame_entry(m.frames[n - 1]) == entry);
        report_is_trace(m, text + entry, n - 1);
        assert(text + entry + report(m, n - 1) =~= text + (entry + report(m, n - 1)));
    } else {
        assert(text + report(m, n) =~= text);
    }
}

// ---- Values ----

/// Whether a value counts as false: nil and false do, nothing else.
pub open spec fn counts_as_false(v: Value) -> bool {
    match v {
        Value::Nil => true,
        Value::Boolean(b) => !b,
        _ => false,
    }
}

/// Whether a pattern of bits is a number: its exponent is not all ones, or it is one of
/// the two infinities.
pub open spec fn numeric(bits: u64) -> bool {
    bits <= 0x7ff0_0000_0000_0000 || 0x8000_0000_0000_0000 <= bits <= 0xfff0_0000_0000_0000
}

/// Whether a pattern of bits is one of the two zeros.
pub open spec fn zero(bits: u64) -> bool {
    bits == 0 || bits == 0x8000_0000_0000_0000
}

/// Numeric equality: of numbers with the same bits, and of the two zeros.
pub open spec fn equal_numbers(a: u64, b: u64) -> bool {
    numeric(a) && numeric(b) && (a == b || zero(a) && zero(b))
}

/// Numeric order: positive numbers go with their bits, negative ones against them, and
/// negative ones come before positive ones, but for the two zeros.
pub open spec fn less_than(a: u64, b: u64) -> bool {
    &&& numeric(a)
    &&& numeric(b)
    &&& !(zero(a) && zero(b))
    &&& if a < 0x8000_0000_0000_0000 {
        b < 0x8000_0000_0000_0000 && a < b
    } else {
        b < 0x8000_0000_0000_0000 || b < a
    }
}

/// Equality of values: numbers by their numeric value, all else by kind and content.
pub open spec fn equal_values(a: Value, b: Value) -> bool {
    match (a, b) {
        (Value::Number(x), Value::Number(y)) => equal_numbers(x, y),
        (Value::Number(_), _) => false,
        (_, Value::Number(_)) => false,
        _ => a == b,
    }
}

/// `Equal` takes two values off and tells whether they are equal to each other.
pub proof fn equal_compares_two_values(m: Machine, stop: int)
    requires
        about_to(m, OpCode::Equal),
        2 <= m.top <= m.stack.len(),
    ensures
        computes(
            m,
            dispatch(m, stop),
            2,
            seq![Value::Boolean(equal_values(nth(m, 1), nth(m, 0)))],
        ),
{
    instructions_are_executed(m, OpCode::Equal, stop);
}

/// `Not` takes a value off and tells whether it counts as false.
pub proof fn not_tells_false(m: Machine, stop: int)
    requires
        about_to(m, OpCode::Not),
        1 <= m.top <= m.stack.len(),
    ensures
        computes(m, dispatch(m, stop), 1, seq![Value::Boolean(counts_as_false(nth(m, 0)))]),
{
    instructions_are_executed(m, OpCode::Not, stop);
}

/// `Less` takes two numbers off and tells whether the lower one is less than the topmost.
pub proof fn less_compares_numbers(m: Machine, stop: int, a: u64, b: u64)
    requires
        about_to(m, OpCode::Less),
        2 <= m.top <= m.stack.len(),
        nth(m, 1) == Value::Number(a),
        nth(m, 0) == Value::Number(b),
    ensures
        computes(m, dispatch(m, stop), 2, seq![Value::Boolean(less_than(a, b))]),
{
    instructions_are_executed(m, OpCode::Less, stop);
}

/// `Greater` takes two numbers off and tells whether the topmost one is less than the
/// other.
pub proof fn greater_compares_numbers(m: Machine, stop: int, a: u64, b: u64)
    requires
        about_to(m, OpCode::Greater),
        2 <= m.top <= m.stack.len(),
        nth(m, 1) == Value::Number(a),
        nth(m, 0) == Value::Number(b),
    ensures
        computes(m, dispatch(m, stop), 2, seq![Value::Boolean(less_than(b, a))]),
{
    instructions_are_executed(m, OpCode::Greater, stop);
}

/// `Negate` changes the sign of a number and nothing else of it.
pub proof fn negate_changes_sign(m: Machine, stop: int, a: u64)
    requires
        about_to(m, OpCode::Negate),
        1 <= m.top <= m.stack.len(),
        nth(m, 0) == Value::Number(a),
    ensures
        dispatch(m, stop) matches Flow::Next(after) && goes_to(m, after, inner(m).ip + 1)
            && same_heap(m, after) && after.top == m.top && (nth(after, 0) matches Value::Number(
            b,
        ) && (b == a + 0x8000_0000_0000_0000 || a == b + 0x8000_0000_0000_0000)) && replaced(
            m,
            after,
            1,
            seq![nth(after, 0)],
        ),
{
    instructions_are_executed(m, OpCode::Negate, stop);
}

/// The operation of an instruction on two numbers.
pub open spec fn operation(op: OpCode) -> Option<ArithmeticOp> {
    match op {
        OpCode::Add => Some(ArithmeticOp::Add),
        OpCode::Subtract => Some(ArithmeticOp::Subtract),
        OpCode::Multiply => Some(ArithmeticOp::Multiply),
        OpCode::Divide => Some(ArithmeticOp::Divide),
        _ => None,
    }
}

/// Arithmetic takes two numbers off and asks for the result of the operation of that name
/// on the lower one and the topmost one.
pub proof fn arithmetic_asks(m: Machine, op: OpCode, stop: int, a: u64, b: u64)
    requires
        operation(op) is Some,
        about_to(m, op),
        2 <= m.top <= m.stack.len(),
        nth(m, 1) == Value::Number(a),
        nth(m, 0) == Value::Number(b),
    ensures
        asks(
            m,
            dispatch(m, stop),
            2,
            Inquiry::Arithmetic { op: operation(op).unwrap(), a, b },
        ),
{
    instructions_are_executed(m, op, stop);
}

/// Whether an instruction works on two numbers only.
pub open spec fn wants_numbers(op: OpCode) -> bool {
    op is Subtract || op is Multiply || op is Divide || op is Less || op is Greater
}

/// An instruction on two numbers fails where one of them is none: the topmost one, which
/// is then taken off, or the other, after which both are gone.
pub proof fn numbers_are_demanded(m: Machine, op: OpCode, stop: int)
    requires
        wants_numbers(op),
        about_to(m, op),
        tellable(m),
        2 <= m.top <= m.stack.len(),
    ensures
        !(nth(m, 0) is Number) ==> fails(
            m,
            dispatch(m, stop),
            1,
            "Operands must be numbers."@,
        ),
        nth(m, 0) is Number && !(nth(m, 1) is Number) ==> fails(
            m,
            dispatch(m, stop),
            2,
            "Operands must be numbers."@,
        ),
{
    instructions_are_executed(m, op, stop);
    errors_are_reported(m, op, stop, "Operands must be numbers."@, m.top - 1);
    errors_are_reported(m, op, stop, "Operands must be numbers."@, m.top - 2);
    assert(past(m).dropped(1) == Machine { top: m.top - 1, ..past(m) });
    assert(past(m).dropped(2) == Machine { top: m.top - 2, ..past(m) });
}

/// Only a number can be negated.
pub proof fn number_is_demanded(m: Machine, stop: int)
    requires
        about_to(m, OpCode::Negate),
        tellable(m),
        1 <= m.top <= m.stack.len(),
        !(nth(m, 0) is Number),
    ensures
        fails(m, dispatch(m, stop), 1, "Operand must be a number."@),
{
    instructions_are_executed(m, OpCode::Negate, stop);
    errors_are_reported(m, OpCode::Negate, stop, "Operand must be a number."@, m.top - 1);
    assert(past(m).dropped(1) == Machine { top: m.top - 1, ..past(m) });
}

/// Only two numbers or two strings can be added.
pub proof fn addends_are_demanded(m: Machine, stop: int)
    requires
        about_to(m, OpCode::Add),
        tellable(m),
        2 <= m.top <= m.stack.len(),
        !(nth(m, 0) is Number && nth(m, 1) is Number),
        !(nth(m, 0) is String && nth(m, 1) is String),
    ensures
        fails(m, dispatch(m, stop), 0, "Operands must be two numbers or two strings."@),
{
    instructions_are_executed(m, OpCode::Add, stop);
    errors_are_reported(
        m,
        OpCode::Add,
        stop,
        "Operands must be two numbers or two strings."@,
        m.top,
    );
    assert(past(m) == Machine { top: m.top, ..past(m) });
}

// ---- Constants and the stack ----

/// What an instruction pushes whatever the stack holds.
pub open spec fn literal(op: OpCode) -> Option<Value> {
    match op {
        OpCode::Nil => Some(Value::Nil),
        OpCode::True => Some(Value::Boolean(true)),
        OpCode::False => Some(Value::Boolean(false)),
        _ => None,
    }
}

/// `Nil`, `True` and `False` push the value of that name.
pub proof fn literals_are_pushed(m: Machine, op: OpCode, stop: int)
    requires
        literal(op) is Some,
        about_to(m, op),
        0 <= m.top < 4096,
        m.stack.len() == 4096,
    ensures
        computes(m, dispatch(m, stop), 0, seq![literal(op).unwrap()]),
{
    instructions_are_executed(m, op, stop);
}

/// `Constant` and `Agent` push the constant that they name.
pub proof fn constants_are_pushed(m: Machine, op: OpCode, stop: int, index: u8, v: Value)
    requires
        op == OpCode::Constant(index) || op == OpCode::Agent(index),
        about_to(m, op),
        has_constant(m, index, v),
        0 <= m.top < 4096,
        m.stack.len() == 4096,
    ensures
        computes(m, dispatch(m, stop), 0, seq![v]),
{
    instructions_are_executed(m, op, stop);
}

/// `Pop` takes the topmost value off.
pub proof fn pop_takes_off(m: Machine, stop: int)
    requires
        about_to(m, OpCode::Pop),
        1 <= m.top <= m.stack.len(),
    ensures
        computes(m, dispatch(m, stop), 1, Seq::empty()),
{
    instructions_are_executed(m, OpCode::Pop, stop);
}

/// `Print` takes the topmost value off and asks the host to print it.
pub proof fn print_asks(m: Machine, stop: int)
    requires
        about_to(m, OpCode::Print),
        1 <= m.top <= m.stack.len(),
    ensures
        asks(m, dispatch(m, stop), 1, Inquiry::Print(nth(m, 0))),
{
    instructions_are_executed(m, OpCode::Print, stop);
}

/// `Prompt` takes a string off and asks for a model's answer to its bytes.
pub proof fn prompt_asks(m: Machine, stop: int, s: usize)
    requires
        about_to(m, OpCode::Prompt),
        1 <= m.top <= m.stack.len(),
        nth(m, 0) == Value::String(s),
    ensures
        asks(m, dispatch(m, stop), 1, Inquiry::Prompt(m.strings[s as int])),
{
    instructions_are_executed(m, OpCode::Prompt, stop);
}

// ---- Local variables ----

/// `GetLocal` pushes what is in the slot of the call's own slots.
pub proof fn locals_are_read(m: Machine, stop: int, slot: u8)
    requires
        about_to(m, OpCode::GetLocal(slot)),
        0 <= m.top < 4096,
        m.stack.len() == 4096,
        inner(m).slot_start + slot < 4096,
    ensures
        computes(m, dispatch(m, stop), 0, seq![m.stack[inner(m).slot_start + slot]]),
{
    instructions_are_executed(m, OpCode::GetLocal(slot), stop);
}

/// `SetLocal` puts the topmost value, which stays, in the slot of the call's own slots,
/// and every other slot is as it was.
pub proof fn locals_are_set(m: Machine, stop: int, slot: u8)
    requires
        about_to(m, OpCode::SetLocal(slot)),
        1 <= m.top <= 4096,
        m.stack.len() == 4096,
        inner(m).slot_start + slot < 4096,
    ensures
        dispatch(m, stop) matches Flow::Next(a) && {
            &&& goes_to(m, a, inner(m).ip + 1)
            &&& same_heap(m, a)
            &&& a.top == m.top
            &&& a.stack.len() == m.stack.len()
            &&& a.stack[inner(m).slot_start + slot] == nth(m, 0)
            &&& forall|i: int|
                0 <= i < m.stack.len() && i != inner(m).slot_start + slot ==> #[trigger] a.stack[i]
                    == m.stack[i]
        },
{
    instructions_are_executed(m, OpCode::SetLocal(slot), stop);
}

/// What `SetLocal` stored, `GetLocal` of the same call and slot pushes.
pub proof fn set_locals_are_read(m: Machine, stop: int, slot: u8, set: Machine)
    requires
        about_to(m, OpCode::SetLocal(slot)),
        1 <= m.top < 4096,
        m.stack.len() == 4096,
        inner(m).slot_start + slot < 4096,
        dispatch(m, stop) == Flow::Next(set),
        about_to(set, OpCode::GetLocal(slot)),
    ensures
        dispatch(set, stop) matches Flow::Next(a) && a.top == m.top + 1 && nth(a, 0) == nth(m, 0),
{
    locals_are_set(m, stop, slot);
    locals_are_read(set, stop, slot);
    let a = dispatch(set, stop)->Next_0;
    assert(seq![set.stack[inner(set).slot_start + slot]][0] == nth(m, 0));
    assert(a.stack[set.top] == nth(m, 0));
}

// ---- Global variables ----

/// `DefineGlobal` takes the topmost value off and puts it under the name; no other
/// variable changes.
pub proof fn globals_are_defined(m: Machine, stop: int, index: u8, name: usize)
    requires
        about_to(m, OpCode::DefineGlobal(index)),
        has_constant(m, index, Value::String(name)),
        1 <= m.top <= m.stack.len(),
    ensures
        dispatch(m, stop) matches Flow::Next(a) && {
            &&& goes_to(m, a, inner(m).ip + 1)
            &&& replaced(m, a, 1, Seq::empty())
            &&& same_heap(m, Machine { globals: m.globals, ..a })
            &&& a.globals.contains_key(name) && a.globals[name] == nth(m, 0)
            &&& forall|other: usize|
                other != name ==> (#[trigger] a.globals.contains_key(other)
                    <==> m.globals.contains_key(other)) && (m.globals.contains_key(other)
                    ==> a.globals[other] == m.globals[other])
        },
{
    instructions_are_executed(m, OpCode::DefineGlobal(index), stop);
}

/// `SetGlobal` puts the topmost value, which stays, under the name of a variable that is
/// there; no other variable changes.
pub proof fn globals_are_set(m: Machine, stop: int, index: u8, name: usize)
    requires
        about_to(m, OpCode::SetGlobal(index)),
        has_constant(m, index, Value::String(name)),
        m.globals.contains_key(name),
        1 <= m.top <= m.stack.len(),
    ensures
        dispatch(m, stop) matches Flow::Next(a) && {
            &&& goes_to(m, a, inner(m).ip + 1)
            &&& replaced(m, a, 0, Seq::empty())
            &&& same_heap(m, Machine { globals: m.globals, ..a })
            &&& a.globals.contains_key(name) && a.globals[name] == nth(m, 0)
            &&& forall|other: usize|
                other != name ==> (#[trigger] a.globals.contains_key(other)
                    <==> m.globals.contains_key(other)) && (m.globals.contains_key(other)
                    ==> a.globals[other] == m.globals[other])
        },
{
    instructions_are_executed(m, OpCode::SetGlobal(index), stop);
}

/// `GetGlobal` pushes the value of the variable.
pub proof fn globals_are_read(m: Machine, stop: int, index: u8, name: usize)
    requires
        about_to(m, OpCode::GetGlobal(index)),
        has_constant(m, index, Value::String(name)),
        m.globals.contains_key(name),
        0 <= m.top < 4096,
        m.stack.len() == 4096,
    ensures
        computes(m, dispatch(m, stop), 0, seq![m.globals[name]]),
{
    instructions_are_executed(m, OpCode::GetGlobal(index), stop);
}

/// A variable that is not there can be neither read nor set.
pub proof fn globals_are_demanded(m: Machine, op: OpCode, stop: int, index: u8, name: usize)
    requires
        op == OpCode::GetGlobal(index) || op == OpCode::SetGlobal(index),
        about_to(m, op),
        tellable(m),
        has_constant(m, index, Value::String(name)),
        !m.globals.contains_key(name),
    ensures
        fails(
            m,
            dispatch(m, stop),
            0,
            "Undefined variable '"@ + shown(m.strings[name as int]) + "'."@,
        ),
{
    instructions_are_executed(m, op, stop);
    let message = "Undefined variable '"@ + shown(m.strings[name as int]) + "'."@;
    errors_are_reported(m, op, stop, message, m.top);
    assert(past(m) == Machine { top: m.top, ..past(m) });
}

// ---- Jumps ----

/// `Jump` goes forward by the offset, from the instruction after it.
pub proof fn jumps_go_forward(m: Machine, stop: int, offset: u16)
    requires
        about_to(m, OpCode::Jump(offset)),
        inner(m).ip + 1 + offset <= usize::MAX,
    ensures
        dispatch(m, stop) matches Flow::Next(a) && goes_to(m, a, inner(m).ip + 1 + offset)
            && same_heap(m, a) && replaced(m, a, 0, Seq::empty()),
{
    instructions_are_executed(m, OpCode::Jump(offset), stop);
}

/// `JumpIfFalse` leaves the topmost value; it goes forward by the offset where that counts
/// as false, and on to the next instruction where it does not.
pub proof fn false_jumps_forward(m: Machine, stop: int, offset: u16)
    requires
        about_to(m, OpCode::JumpIfFalse(offset)),
        1 <= m.top <= m.stack.len(),
        inner(m).ip + 1 + offset <= usize::MAX,
    ensures
        dispatch(m, stop) matches Flow::Next(a) && goes_to(
            m,
            a,
            if counts_as_false(nth(m, 0)) {
                inner(m).ip + 1 + offset
            } else {
                inner(m).ip + 1
            },
        ) && same_heap(m, a) && replaced(m, a, 0, Seq::empty()),
{
    instructions_are_executed(m, OpCode::JumpIfFalse(offset), stop);
}

/// `Loop` goes back by the offset, from the instruction after it.
pub proof fn loops_go_back(m: Machine, stop: int, offset: u16)
    requires
        about_to(m, OpCode::Loop(offset)),
        offset <= inner(m).ip + 1,
    ensures
        dispatch(m, stop) matches Flow::Next(a) && goes_to(m, a, inner(m).ip + 1 - offset)
            && same_heap(m, a) && replaced(m, a, 0, Seq::empty()),
{
    instructions_are_executed(m, OpCode::Loop(offset), stop);
}

} // verus!
