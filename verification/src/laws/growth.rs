//! What instructions leave as it is.

use vstd::prelude::*;
use vstd::string::*;

use crate::chunk::{OpCode, Upvalue};
use crate::machine::{CallFrame, Machine, STACK_MAX_SIZE};
use crate::semantics::{
    call_value, capture, capture_all, captured, close, close_head, close_keeps_stack,
    dispatch, execute, instantiate, invoke, Flow,
};
use crate::value::Value;

verus! {

/// Whether the first list is the beginning of the second.
pub open spec fn begins<T>(first: Seq<T>, second: Seq<T>) -> bool {
    &&& first.len() <= second.len()
    &&& forall|i: int| 0 <= i < first.len() ==> #[trigger] second[i] == first[i]
}

/// Whether everything that there was is still there: code, closures, bound methods
/// and the bytes of strings as they were, classes under their names, and instances
/// of their classes.
pub open spec fn grown(m: Machine, after: Machine) -> bool {
    &&& after.functions == m.functions
    &&& after.chunks == m.chunks
    &&& begins(m.strings, after.strings)
    &&& begins(m.closures, after.closures)
    &&& begins(m.bound_methods, after.bound_methods)
    &&& m.upvalues.len() <= after.upvalues.len()
    &&& m.classes.len() <= after.classes.len()
    &&& forall|i: int|
        0 <= i < m.classes.len() ==> (#[trigger] after.classes[i]).name == m.classes[i].name
    &&& m.instances.len() <= after.instances.len()
    &&& forall|i: int|
        0 <= i < m.instances.len() ==> (#[trigger] after.instances[i]).class
            == m.instances[i].class
}

/// The machine after an instruction, where the program can tell.
pub open spec fn after(flow: Flow) -> Option<Machine> {
    match flow {
        Flow::Next(m) => Some(m),
        Flow::Ask(m, _) => Some(m),
        Flow::Fail(m, _) => Some(m),
        Flow::Done(m, _) => Some(m),
        Flow::Stuck => None,
    }
}

/// Whether the calls are as they were, but for the place of the innermost one and a
/// call that may have begun.
pub open spec fn same_calls(m: Machine, after: Machine) -> bool {
    &&& m.frames.len() <= after.frames.len()
    &&& forall|i: int|
        0 <= i < m.frames.len() - 1 ==> #[trigger] after.frames[i] == m.frames[i]
}

/// Whether an instruction has neither ended a call nor touched captured variables.
pub open spec fn plain(m: Machine, flow: Flow) -> bool {
    match after(flow) {
        Some(a) => {
            &&& grown(m, a)
            &&& same_calls(m, a)
            &&& a.upvalues == m.upvalues
            &&& a.open == m.open
            &&& !(flow is Done)
        },
        None => true,
    }
}

proof fn instantiations_are_plain(m: Machine, class: usize, arg_count: u8)
    ensures
        plain(m, instantiate(m, class, arg_count)),
{
}

proof fn call_values_are_plain(m: Machine, callee: Value, arg_count: u8)
    ensures
        plain(m, call_value(m, callee, arg_count)),
{
    match callee {
        Value::Class(class) => instantiations_are_plain(m, class, arg_count),
        _ => {},
    }
}

proof fn invocations_are_plain(m: Machine, name: usize, arg_count: u8)
    ensures
        plain(m, invoke(m, name, arg_count)),
{
    match m.peek(arg_count as int) {
        Value::Instance(i) => {
            let instance = m.instances[i as int];
            if instance.fields.contains_key(name) {
                let v = instance.fields[name];
                call_values_are_plain(m.with_slot(m.top - arg_count - 1, v), v, arg_count);
            }
        },
        _ => {},
    }
}

/// Whether an instruction begins a call.
pub open spec fn calls(op: OpCode) -> bool {
    op is Call || op is Invoke || op is SuperInvoke
}

/// Whether an instruction makes or changes objects or strings.
pub open spec fn makes(op: OpCode) -> bool {
    op is Add || op is Class || op is GetProperty || op is SetProperty || op is Method
        || op is Inherit || op is GetSuper
}

/// Whether an instruction moves the innermost call.
pub open spec fn jumps(op: OpCode) -> bool {
    op is Jump || op is JumpIfFalse || op is Loop
}

/// Whether an instruction ends a call or touches captured variables.
pub open spec fn touches_captured(op: OpCode) -> bool {
    op is Return || op is Closure || op is SetUpvalue || op is CloseUpvalue
}

proof fn call_instructions_are_plain(m: Machine, op: OpCode, stop: int)
    requires
        calls(op),
    ensures
        plain(m, execute(m, op, stop)),
{
    match op {
        OpCode::Call(arg_count) => {
            call_values_are_plain(m, m.peek(arg_count as int), arg_count);
        },
        OpCode::Invoke(index, arg_count) => {
            match m.constant(index) {
                Some(Value::String(name)) => invocations_are_plain(m, name, arg_count),
                _ => {},
            }
        },
        _ => {},
    }
}

proof fn making_instructions_are_plain(m: Machine, op: OpCode, stop: int)
    requires
        m.valid(),
        makes(op),
    ensures
        plain(m, execute(m, op, stop)),
{
}

proof fn jumps_are_plain(m: Machine, op: OpCode, stop: int)
    requires
        m.frames.len() > 0,
        jumps(op),
    ensures
        plain(m, execute(m, op, stop)),
{
}

proof fn other_instructions_are_plain(m: Machine, op: OpCode, stop: int)
    requires
        !calls(op),
        !makes(op),
        !jumps(op),
        !touches_captured(op),
    ensures
        plain(m, execute(m, op, stop)),
{
}

/// An instruction that ends no call and touches no captured variables changes calls
/// at most at their end, and nothing that there was goes away.
pub proof fn instructions_are_plain(m: Machine, op: OpCode, stop: int)
    requires
        m.valid(),
        m.frames.len() > 0,
        !touches_captured(op),
    ensures
        plain(m, execute(m, op, stop)),
{
    if calls(op) {
        call_instructions_are_plain(m, op, stop);
    } else if makes(op) {
        making_instructions_are_plain(m, op, stop);
    } else if jumps(op) {
        jumps_are_plain(m, op, stop);
    } else {
        other_instructions_are_plain(m, op, stop);
    }
}

/// Capturing variables adds captured variables and changes nothing else.
pub proof fn captures_only_add(m: Machine, list: Seq<Upvalue>, done: Seq<usize>)
    ensures
        capture_all(m, list, done) matches Some((a, _)) ==> a == (Machine {
            upvalues: a.upvalues,
            open: a.open,
            ..m
        }) && m.upvalues.len() <= a.upvalues.len(),
    decreases list.len() - done.len(),
{
    if done.len() < list.len() {
        let item = list[done.len() as int];
        if item.is_local {
            let slot = m.frame().slot_start + item.index;
            if slot <= usize::MAX {
                captures_only_add(
                    capture(m, slot as usize),
                    list,
                    done.push(captured(m, slot as usize)),
                );
            }
        } else {
            let outer = m.closures[m.frame().closure as int].upvalues;
            if item.index < outer.len() {
                captures_only_add(m, list, done.push(outer[item.index as int]));
            }
        }
    }
}

/// Closing captured variables makes them no fewer.
proof fn closing_removes_none(m: Machine, last: int)
    requires
        forall|i: int| 0 <= i < m.open.len() ==> (#[trigger] m.open[i]) < m.upvalues.len(),
    ensures
        close(m, last) matches Some(a) ==> a.upvalues.len() == m.upvalues.len(),
    decreases m.open.len(),
{
    if m.open.len() > 0 && last <= m.upvalues[m.open[0] as int].location < STACK_MAX_SIZE {
        closing_removes_none(close_head(m), last);
    }
}

/// Whether the outermost `stop` calls are as they were, and are all that is left
/// where the run has ended.
pub open spec fn keeps_calls(flow: Flow, frames: Seq<CallFrame>, stop: int) -> bool {
    match flow {
        Flow::Next(m) => m.frames.len() > stop && m.frames.take(stop) == frames.take(stop),
        Flow::Ask(m, _) => m.frames.len() > stop && m.frames.take(stop) == frames.take(stop),
        Flow::Fail(m, _) => m.frames.len() > stop && m.frames.take(stop) == frames.take(stop),
        Flow::Done(m, _) => m.frames == frames.take(stop),
        Flow::Stuck => true,
    }
}

/// Everything that there was before an instruction is still there after it.
pub proof fn instructions_only_add(m: Machine, stop: int)
    requires
        m.valid(),
    ensures
        after(dispatch(m, stop)) matches Some(a) ==> grown(m, a),
{
    if m.frames.len() > 0 && m.frame().ip < m.running().code().len() {
        let moved = m.with_ip(m.frame().ip + 1);
        let op = m.running().code()[m.frame().ip as int];
        match op {
            OpCode::Return => {
                close_keeps_stack(moved.dropped(1), moved.frame().slot_start as int);
                closing_removes_none(moved.dropped(1), moved.frame().slot_start as int);
            },
            OpCode::CloseUpvalue => {
                close_keeps_stack(moved, moved.top - 1);
                closing_removes_none(moved, moved.top - 1);
            },
            OpCode::Closure(chunk_id) => {
                let function = moved.chunks[chunk_id as usize];
                captures_only_add(
                    moved,
                    moved.functions[function as int].upvalues@,
                    Seq::empty(),
                );
            },
            OpCode::SetUpvalue(slot) => {},
            _ => {
                instructions_are_plain(moved, op, stop);
            },
        }
    }
}

/// An instruction of a call leaves the outermost `stop` calls alone, as long as
/// there are more than those; and the run ends exactly when no more are left.
pub proof fn instructions_keep_calls(m: Machine, stop: int)
    requires
        m.valid(),
        0 <= stop < m.frames.len(),
    ensures
        keeps_calls(dispatch(m, stop), m.frames, stop),
{
    if m.frame().ip < m.running().code().len() {
        let moved = m.with_ip(m.frame().ip + 1);
        let op = m.running().code()[m.frame().ip as int];
        assert(moved.frames.take(stop) =~= m.frames.take(stop));
        match op {
            OpCode::Return => {
                close_keeps_stack(moved.dropped(1), moved.frame().slot_start as int);
                assert(moved.frames.drop_last().take(stop) =~= m.frames.take(stop));
                assert(moved.frames.drop_last().len() == stop ==> moved.frames.drop_last()
                    =~= m.frames.take(stop));
            },
            OpCode::CloseUpvalue => {
                close_keeps_stack(moved, moved.top - 1);
            },
            OpCode::Closure(chunk_id) => {
                let function = moved.chunks[chunk_id as usize];
                captures_only_add(
                    moved,
                    moved.functions[function as int].upvalues@,
                    Seq::empty(),
                );
            },
            OpCode::SetUpvalue(slot) => {},
            _ => {
                instructions_are_plain(moved, op, stop);
                match after(execute(moved, op, stop)) {
                    Some(a) => {
                        assert(a.frames.take(stop) =~= moved.frames.take(stop));
                    },
                    None => {},
                }
            },
        }
    }
}

/// Whether to call a value is to begin a call of a closure.
pub open spec fn is_closure_call(m: Machine, callee: Value) -> bool {
    match callee {
        Value::Closure(_) => true,
        Value::BoundMethod(_) => true,
        Value::Class(class) => m.classes[class as int].methods.contains_key(
            m.place_of("init".spec_bytes()),
        ),
        _ => false,
    }
}

/// Whether an instruction calls a closure.
pub open spec fn calls_closure(m: Machine, op: OpCode) -> bool {
    match op {
        OpCode::Call(arg_count) => is_closure_call(m, m.peek(arg_count as int)),
        OpCode::Invoke(index, arg_count) => match (m.constant(index), m.peek(arg_count as int)) {
            (Some(Value::String(name)), Value::Instance(i)) => {
                let instance = m.instances[i as int];
                if instance.fields.contains_key(name) {
                    is_closure_call(m, instance.fields[name])
                } else {
                    true
                }
            },
            _ => false,
        },
        OpCode::SuperInvoke(_, _) => true,
        _ => false,
    }
}

/// Whether the calls are as they were, but for the place of the innermost one.
pub open spec fn only_moves(m: Machine, after: Machine) -> bool {
    &&& after.frames.len() == m.frames.len()
    &&& after.frames.drop_last() == m.frames.drop_last()
}

spec fn moves(m: Machine, flow: Flow) -> bool {
    after(flow) matches Some(a) ==> only_moves(m, a)
}

proof fn value_calls_only_move(m: Machine, callee: Value, arg_count: u8)
    requires
        !is_closure_call(m, callee),
    ensures
        moves(m, call_value(m, callee, arg_count)),
{
    match callee {
        Value::Class(class) => {
            assert(moves(m, instantiate(m, class, arg_count)));
        },
        _ => {},
    }
}

proof fn call_instructions_only_move(m: Machine, op: OpCode, stop: int)
    requires
        calls(op),
        !calls_closure(m, op),
    ensures
        moves(m, execute(m, op, stop)),
{
    match op {
        OpCode::Call(arg_count) => {
            value_calls_only_move(m, m.peek(arg_count as int), arg_count);
        },
        OpCode::Invoke(index, arg_count) => {
            match (m.constant(index), m.peek(arg_count as int)) {
                (Some(Value::String(name)), Value::Instance(i)) => {
                    let instance = m.instances[i as int];
                    if instance.fields.contains_key(name) {
                        let v = instance.fields[name];
                        let placed = m.with_slot(m.top - arg_count - 1, v);
                        value_calls_only_move(placed, v, arg_count);
                    }
                },
                _ => {},
            }
        },
        _ => {},
    }
}

proof fn other_instructions_only_move(m: Machine, op: OpCode, stop: int)
    requires
        m.frames.len() > 0,
        !calls(op),
        !jumps(op),
        !touches_captured(op),
    ensures
        moves(m, execute(m, op, stop)),
{
}

proof fn jumps_only_move(m: Machine, op: OpCode, stop: int)
    requires
        m.frames.len() > 0,
        jumps(op),
    ensures
        moves(m, execute(m, op, stop)),
{
    assert(forall|ip: int|
        (#[trigger] m.with_ip(ip)).frames.drop_last() =~= m.frames.drop_last());
}

/// An instruction that neither calls a closure nor returns keeps the number of calls,
/// and touches none but the innermost, whether it succeeds or fails.
pub proof fn instructions_keep_call_count(m: Machine, stop: int)
    requires
        m.frames.len() > 0,
        m.frame().ip < m.running().code().len(),
        !(m.running().code()[m.frame().ip as int] is Return),
        !calls_closure(m, m.running().code()[m.frame().ip as int]),
    ensures
        after(dispatch(m, stop)) matches Some(a) ==> only_moves(m, a),
{
    let moved = m.with_ip(m.frame().ip + 1);
    let op = m.running().code()[m.frame().ip as int];
    assert(moved.frames.drop_last() =~= m.frames.drop_last());
    assert(moved.running() == m.running());
    match op {
        OpCode::CloseUpvalue => {
            close_keeps_stack(moved, moved.top - 1);
        },
        OpCode::Closure(chunk_id) => {
            let function = moved.chunks[chunk_id as usize];
            captures_only_add(moved, moved.functions[function as int].upvalues@, Seq::empty());
        },
        OpCode::SetUpvalue(_) => {},
        _ => {
            if calls(op) {
                assert(!calls_closure(moved, op));
                call_instructions_only_move(moved, op, stop);
            } else if jumps(op) {
                jumps_only_move(moved, op, stop);
            } else {
                other_instructions_only_move(moved, op, stop);
            }
        },
    }
}

/// An instruction that calls a closure begins at most one call, at its first
/// instruction, and leaves the calls below it; a return ends one.
pub proof fn instructions_change_one_call(m: Machine, stop: int)
    requires
        m.frames.len() > 0,
        m.frame().ip < m.running().code().len(),
    ensures
        calls(m.running().code()[m.frame().ip as int]) ==> (after(
            dispatch(m, stop),
        ) matches Some(a) ==> only_moves(m, a) || (a.frames.len() == m.frames.len() + 1
            && a.frames.drop_last().drop_last() == m.frames.drop_last() && a.frame().ip == 0)),
        m.running().code()[m.frame().ip as int] is Return ==> (after(
            dispatch(m, stop),
        ) matches Some(a) ==> a.frames == m.frames.drop_last()),
{
    let moved = m.with_ip(m.frame().ip + 1);
    let op = m.running().code()[m.frame().ip as int];
    assert(moved.frames.drop_last() =~= m.frames.drop_last());
    if calls(op) {
        call_instructions_begin_one(moved, op, stop);
    } else if op is Return {
        close_keeps_stack(moved.dropped(1), moved.frame().slot_start as int);
    }
}

spec fn begins_one(m: Machine, flow: Flow) -> bool {
    after(flow) matches Some(a) ==> a.frames == m.frames || (a.frames.len() == m.frames.len() + 1
        && a.frames.drop_last() == m.frames && a.frame().ip == 0)
}

proof fn value_calls_begin_one(m: Machine, callee: Value, arg_count: u8)
    ensures
        begins_one(m, call_value(m, callee, arg_count)),
{
    assert(forall|f: CallFrame| (#[trigger] m.frames.push(f)).drop_last() =~= m.frames);
    match callee {
        Value::Class(class) => {
            assert(begins_one(m, instantiate(m, class, arg_count)));
        },
        _ => {},
    }
}

proof fn call_instructions_begin_one(m: Machine, op: OpCode, stop: int)
    requires
        calls(op),
    ensures
        begins_one(m, execute(m, op, stop)),
{
    assert(forall|f: CallFrame| (#[trigger] m.frames.push(f)).drop_last() =~= m.frames);
    match op {
        OpCode::Call(arg_count) => {
            value_calls_begin_one(m, m.peek(arg_count as int), arg_count);
        },
        OpCode::Invoke(index, arg_count) => {
            match (m.constant(index), m.peek(arg_count as int)) {
                (Some(Value::String(name)), Value::Instance(i)) => {
                    let instance = m.instances[i as int];
                    if instance.fields.contains_key(name) {
                        let v = instance.fields[name];
                        let placed = m.with_slot(m.top - arg_count - 1, v);
                        value_calls_begin_one(placed, v, arg_count);
                    }
                },
                _ => {},
            }
        },
        _ => {},
    }
}

} // verus!
