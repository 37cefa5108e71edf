//! Nothing ever refers to what is not there.

use vstd::prelude::*;
use vstd::utf8::*;

use crate::chunk::{OpCode, Upvalue};
use crate::laws::growth::{
    after, begins, calls, captures_only_add, grown, instructions_are_plain, jumps, makes,
    touches_captured,
};
use crate::machine::{Machine, STACK_MAX_SIZE};
use crate::semantics::{
    bind_method, call, call_function, call_value, capture, capture_all, captured, captured_here,
    close, close_head, close_keeps_stack, dispatch, execute, instantiate, invoke, op_add, search,
    with_fresh_closure, Flow,
};
use crate::string::interning;
use crate::text::shown;
use crate::value::Value;

verus! {

spec fn valid_after(flow: Flow) -> bool {
    match flow {
        Flow::Done(m, v) => m.valid() && m.value_ok(v),
        _ => after(flow) matches Some(m) ==> m.valid(),
    }
}

/// Interning keeps the machine valid, adds the bytes where they are not there yet, and
/// gives a place that is there.
pub proof fn interning_is_valid(m: Machine, bytes: Seq<u8>)
    requires
        m.valid(),
    ensures
        m.interning(bytes).valid(),
        begins(m.strings, m.interning(bytes).strings),
        m.interning(bytes).strings.contains(bytes),
        m.interning(bytes).value_ok(Value::String(m.place_of(bytes))),
{
    interning(m.strings, bytes);
}

proof fn calls_are_valid(m: Machine, closure: usize, arg_count: u8)
    requires
        m.valid(),
        closure < m.closures.len(),
    ensures
        valid_after(call(m, closure, arg_count)),
{
}

proof fn instantiations_are_valid(m: Machine, class: usize, arg_count: u8)
    requires
        m.valid(),
        class < m.classes.len(),
    ensures
        valid_after(instantiate(m, class, arg_count)),
{
}

proof fn call_values_are_valid(m: Machine, callee: Value, arg_count: u8)
    requires
        m.valid(),
        m.value_ok(callee),
    ensures
        valid_after(call_value(m, callee, arg_count)),
{
    match callee {
        Value::Class(class) => instantiations_are_valid(m, class, arg_count),
        _ => {},
    }
}

proof fn invocations_are_valid(m: Machine, name: usize, arg_count: u8)
    requires
        m.valid(),
    ensures
        valid_after(invoke(m, name, arg_count)),
{
    if m.top >= arg_count + 1 {
        let receiver = m.peek(arg_count as int);
        assert(m.value_ok(receiver));
        match receiver {
            Value::Instance(i) => {
                let instance = m.instances[i as int];
                assert(m.table_ok(instance.fields));
                if instance.fields.contains_key(name) {
                    let v = instance.fields[name];
                    call_values_are_valid(m.with_slot(m.top - arg_count - 1, v), v, arg_count);
                } else {
                    assert(m.table_ok(m.classes[instance.class as int].methods));
                }
            },
            _ => {},
        }
    }
}

proof fn call_instructions_are_valid(m: Machine, op: OpCode, stop: int)
    requires
        m.valid(),
        m.frames.len() > 0,
        calls(op),
    ensures
        valid_after(execute(m, op, stop)),
{
    match op {
        OpCode::Call(arg_count) => {
            if m.top >= arg_count + 1 {
                assert(m.value_ok(m.peek(arg_count as int)));
                call_values_are_valid(m, m.peek(arg_count as int), arg_count);
            }
        },
        OpCode::Invoke(index, arg_count) => {
            match m.constant(index) {
                Some(Value::String(name)) => invocations_are_valid(m, name, arg_count),
                _ => {},
            }
        },
        OpCode::SuperInvoke(index, arg_count) => {
            if m.top >= 1 {
                assert(m.value_ok(m.peek(0)));
                if let Value::Class(c) = m.peek(0) {
                    assert(m.table_ok(m.classes[c as int].methods));
                }
            }
        },
        _ => {},
    }
}

proof fn constants_are_valid(m: Machine, index: u8)
    requires
        m.valid(),
        m.frames.len() > 0,
    ensures
        m.constant(index) matches Some(v) ==> m.value_ok(v),
{
    assert(m.frame_ok(m.frames[m.frames.len() - 1]));
    assert(m.closure_ok(m.closures[m.frame().closure as int]));
    assert(m.function_ok(m.running()));
}

proof fn additions_are_valid(m: Machine)
    requires
        m.valid(),
    ensures
        valid_after(op_add(m)),
{
    if m.top >= 2 {
        match (m.peek(1), m.peek(0)) {
            (Value::String(a), Value::String(b)) => {
                let joined = encode_utf8(shown(m.strings[a as int]) + shown(m.strings[b as int]));
                interning_is_valid(m.dropped(2), joined);
            },
            _ => {},
        }
    }
}

proof fn bindings_are_valid(m: Machine, class: usize, name: usize)
    requires
        m.valid(),
        class < m.classes.len(),
    ensures
        valid_after(bind_method(m, class, name)),
{
    assert(m.table_ok(m.classes[class as int].methods));
}

proof fn class_instructions_are_valid(m: Machine, op: OpCode, stop: int)
    requires
        m.valid(),
        m.frames.len() > 0,
        op is Class || op is Method || op is Inherit || op is GetSuper,
    ensures
        valid_after(execute(m, op, stop)),
{
    match op {
        OpCode::Class(index) => constants_are_valid(m, index),
        OpCode::Method(index) => {
            constants_are_valid(m, index);
            if m.top >= 2 {
                assert(m.value_ok(m.peek(0)));
                assert(m.value_ok(m.peek(1)));
                if let Value::Class(c) = m.peek(1) {
                    assert(m.table_ok(m.classes[c as int].methods));
                }
            }
        },
        OpCode::Inherit => {
            if m.top >= 2 {
                assert(m.value_ok(m.peek(0)));
                assert(m.value_ok(m.peek(1)));
                match (m.peek(1), m.peek(0)) {
                    (Value::Class(a), Value::Class(b)) => {
                        assert(m.table_ok(m.classes[a as int].methods));
                        assert(m.table_ok(m.classes[b as int].methods));
                    },
                    _ => {},
                }
            }
        },
        OpCode::GetSuper(index) => {
            if m.top >= 1 {
                assert(m.value_ok(m.peek(0)));
                match (m.peek(0), m.constant(index)) {
                    (Value::Class(c), Some(Value::String(name))) => {
                        bindings_are_valid(m.dropped(1), c, name);
                    },
                    _ => {},
                }
            }
        },
        _ => {},
    }
}

proof fn property_instructions_are_valid(m: Machine, op: OpCode, stop: int)
    requires
        m.valid(),
        m.frames.len() > 0,
        op is GetProperty || op is SetProperty,
    ensures
        valid_after(execute(m, op, stop)),
{
    match op {
        OpCode::GetProperty(index) => {
            if m.top >= 1 {
                assert(m.value_ok(m.peek(0)));
                match (m.peek(0), m.constant(index)) {
                    (Value::Instance(i), Some(Value::String(name))) => {
                        assert(m.table_ok(m.instances[i as int].fields));
                        bindings_are_valid(m, m.instances[i as int].class, name);
                    },
                    _ => {},
                }
            }
        },
        OpCode::SetProperty(index) => {
            constants_are_valid(m, index);
            if m.top >= 2 {
                assert(m.value_ok(m.peek(0)));
                assert(m.value_ok(m.peek(1)));
                if let Value::Instance(i) = m.peek(1) {
                    assert(m.table_ok(m.instances[i as int].fields));
                }
            }
        },
        _ => {},
    }
}

proof fn jumps_are_valid(m: Machine, op: OpCode, stop: int)
    requires
        m.valid(),
        m.frames.len() > 0,
        jumps(op),
    ensures
        valid_after(execute(m, op, stop)),
{
    assert(m.frame_ok(m.frames[m.frames.len() - 1]));
}

proof fn global_instructions_are_valid(m: Machine, op: OpCode, stop: int)
    requires
        m.valid(),
        m.frames.len() > 0,
        op is DefineGlobal || op is GetGlobal || op is SetGlobal,
    ensures
        valid_after(execute(m, op, stop)),
{
    match op {
        OpCode::DefineGlobal(index) => constants_are_valid(m, index),
        OpCode::GetGlobal(index) => constants_are_valid(m, index),
        OpCode::SetGlobal(index) => constants_are_valid(m, index),
        _ => {},
    }
    if m.top >= 1 {
        assert(m.value_ok(m.peek(0)));
    }
}

proof fn captured_here_is_valid(m: Machine)
    requires
        m.valid(),
        m.frames.len() > 0,
    ensures
        forall|i: int|
            0 <= i < captured_here(m).len() ==> (#[trigger] captured_here(m)[i])
                < m.upvalues.len(),
{
    assert(m.frame_ok(m.frames[m.frames.len() - 1]));
    assert(m.closure_ok(m.closures[m.frame().closure as int]));
}

proof fn stack_instructions_are_valid(m: Machine, op: OpCode, stop: int)
    requires
        m.valid(),
        m.frames.len() > 0,
        !calls(op),
        !makes(op),
        !jumps(op),
        !touches_captured(op),
        !(op is DefineGlobal || op is GetGlobal || op is SetGlobal),
    ensures
        valid_after(execute(m, op, stop)),
{
    assert(m.frame_ok(m.frames[m.frames.len() - 1]));
    match op {
        OpCode::Constant(index) => constants_are_valid(m, index),
        OpCode::Agent(index) => constants_are_valid(m, index),
        OpCode::SetLocal(_) => {
            if m.top >= 1 {
                assert(m.value_ok(m.peek(0)));
            }
        },
        OpCode::GetUpvalue(slot) => {
            captured_here_is_valid(m);
            if slot < captured_here(m).len() {
                assert(m.upvalues[captured_here(m)[slot as int] as int].closed matches Some(v)
                    ==> m.value_ok(v));
            }
        },
        _ => {},
    }
}

/// Capturing a variable keeps the machine valid and gives a place that is there.
pub proof fn capture_is_valid(m: Machine, slot: usize)
    requires
        m.valid(),
    ensures
        capture(m, slot).valid(),
        captured(m, slot) < capture(m, slot).upvalues.len(),
        m.upvalues.len() <= capture(m, slot).upvalues.len(),
{
    search_in_range(m, slot as int, 0);
}

/// The search for a captured variable ends within the list or just behind it.
pub proof fn search_in_range(m: Machine, slot: int, i: int)
    requires
        0 <= i <= m.open.len(),
    ensures
        i <= search(m, slot, i) <= m.open.len(),
    decreases m.open.len() - i,
{
    if i < m.open.len() && m.upvalues[m.open[i] as int].location > slot {
        search_in_range(m, slot, i + 1);
    }
}

proof fn captures_are_valid(m: Machine, list: Seq<Upvalue>, done: Seq<usize>)
    requires
        m.valid(),
        m.frames.len() > 0,
        forall|i: int| 0 <= i < done.len() ==> (#[trigger] done[i]) < m.upvalues.len(),
    ensures
        capture_all(m, list, done) matches Some((a, places)) ==> a.valid() && (forall|i: int|
            0 <= i < places.len() ==> (#[trigger] places[i]) < a.upvalues.len()),
    decreases list.len() - done.len(),
{
    if done.len() < list.len() {
        let item = list[done.len() as int];
        if item.is_local {
            let slot = m.frame().slot_start + item.index;
            if slot <= usize::MAX {
                capture_is_valid(m, slot as usize);
                captures_are_valid(
                    capture(m, slot as usize),
                    list,
                    done.push(captured(m, slot as usize)),
                );
            }
        } else {
            captured_here_is_valid(m);
            let outer = m.closures[m.frame().closure as int].upvalues;
            if item.index < outer.len() {
                captures_are_valid(m, list, done.push(outer[item.index as int]));
            }
        }
    }
}

proof fn closing_is_valid(m: Machine, last: int)
    requires
        m.valid(),
    ensures
        close(m, last) matches Some(a) ==> a.valid(),
    decreases m.open.len(),
{
    if m.open.len() > 0 && last <= m.upvalues[m.open[0] as int].location < STACK_MAX_SIZE {
        let location = m.upvalues[m.open[0] as int].location as int;
        assert(m.value_ok(m.stack[location]));
        assert(close_head(m).valid());
        closing_is_valid(close_head(m), last);
    }
}

proof fn capturing_instructions_are_valid(m: Machine, op: OpCode, stop: int)
    requires
        m.valid(),
        m.frames.len() > 0,
        touches_captured(op),
    ensures
        valid_after(execute(m, op, stop)),
{
    assert(m.frame_ok(m.frames[m.frames.len() - 1]));
    match op {
        OpCode::Return => {
            if m.top >= 1 {
                assert(m.value_ok(m.peek(0)));
                closing_is_valid(m.dropped(1), m.frame().slot_start as int);
                close_keeps_stack(m.dropped(1), m.frame().slot_start as int);
            }
        },
        OpCode::CloseUpvalue => {
            closing_is_valid(m, m.top - 1);
            close_keeps_stack(m, m.top - 1);
        },
        OpCode::Closure(chunk_id) => {
            if m.chunks.contains_key(chunk_id as usize) {
                let function = m.chunks[chunk_id as usize];
                let list = m.functions[function as int].upvalues@;
                captures_are_valid(m, list, Seq::empty());
                captures_only_add(m, list, Seq::empty());
            }
        },
        OpCode::SetUpvalue(slot) => {
            captured_here_is_valid(m);
            if m.top >= slot + 1 {
                assert(m.value_ok(m.peek(slot as int)));
            }
        },
        _ => {},
    }
}

/// An instruction leaves a valid machine valid.
pub proof fn instructions_keep_validity(m: Machine, stop: int)
    requires
        m.valid(),
    ensures
        match dispatch(m, stop) {
            Flow::Next(a) => a.valid(),
            Flow::Ask(a, _) => a.valid(),
            Flow::Fail(a, _) => a.valid(),
            Flow::Done(a, v) => a.valid() && a.value_ok(v),
            Flow::Stuck => true,
        },
{
    if m.frames.len() > 0 && m.frame().ip < m.running().code().len() {
        let moved = m.with_ip(m.frame().ip + 1);
        let op = m.running().code()[m.frame().ip as int];
        assert(m.frame_ok(m.frames[m.frames.len() - 1]));
        assert(moved.valid());
        if touches_captured(op) {
            capturing_instructions_are_valid(moved, op, stop);
        } else if calls(op) {
            call_instructions_are_valid(moved, op, stop);
        } else if op is Add {
            additions_are_valid(moved);
        } else if op is GetProperty || op is SetProperty {
            property_instructions_are_valid(moved, op, stop);
        } else if makes(op) {
            class_instructions_are_valid(moved, op, stop);
        } else if jumps(op) {
            jumps_are_valid(moved, op, stop);
        } else if op is DefineGlobal || op is GetGlobal || op is SetGlobal {
            global_instructions_are_valid(moved, op, stop);
        } else {
            stack_instructions_are_valid(moved, op, stop);
        }
    }
}

/// Capturing a variable leaves a well-formed machine well-formed. No machine holds
/// captured variables beyond the size of the address space.
pub proof fn capture_keeps_wf(m: Machine, slot: usize)
    requires
        m.wf(),
        m.upvalues.len() <= usize::MAX,
    ensures
        capture(m, slot).wf(),
{
    capture_is_valid(m, slot);
    search_in_range(m, slot as int, 0);
    assert(capture(m, slot).open.no_duplicates());
}

/// Capturing variables puts none in the list twice.
proof fn captures_stay_distinct(m: Machine, list: Seq<Upvalue>, done: Seq<usize>)
    requires
        m.wf(),
        capture_all(m, list, done) matches Some((a, _)) ==> a.upvalues.len() <= usize::MAX,
    ensures
        capture_all(m, list, done) matches Some((a, _)) ==> a.open.no_duplicates(),
    decreases list.len() - done.len(),
{
    if done.len() < list.len() {
        let item = list[done.len() as int];
        if item.is_local {
            let slot = m.frame().slot_start + item.index;
            if slot <= usize::MAX {
                let next = capture(m, slot as usize);
                let more = done.push(captured(m, slot as usize));
                captures_only_add(next, list, more);
                capture_is_valid(m, slot as usize);
                if capture_all(next, list, more) is Some {
                    capture_keeps_wf(m, slot as usize);
                    captures_stay_distinct(next, list, more);
                }
            }
        } else {
            let outer = m.closures[m.frame().closure as int].upvalues;
            if item.index < outer.len() {
                captures_stay_distinct(m, list, done.push(outer[item.index as int]));
            }
        }
    }
}

/// Closing captured variables puts none in the list twice.
proof fn closing_stays_distinct(m: Machine, last: int)
    requires
        m.open.no_duplicates(),
    ensures
        close(m, last) matches Some(a) ==> a.open.no_duplicates(),
    decreases m.open.len(),
{
    if m.open.len() > 0 && last <= m.upvalues[m.open[0] as int].location < STACK_MAX_SIZE {
        closing_stays_distinct(close_head(m), last);
    }
}

/// An instruction leaves a well-formed machine well-formed. No machine holds
/// captured variables beyond the size of the address space.
pub proof fn instructions_keep_wf(m: Machine, stop: int)
    requires
        m.wf(),
        after(dispatch(m, stop)) matches Some(a) ==> a.upvalues.len() <= usize::MAX,
    ensures
        match dispatch(m, stop) {
            Flow::Next(a) => a.wf(),
            Flow::Ask(a, _) => a.wf(),
            Flow::Fail(a, _) => a.wf(),
            Flow::Done(a, v) => a.wf() && a.value_ok(v),
            Flow::Stuck => true,
        },
{
    instructions_keep_validity(m, stop);
    if m.frames.len() > 0 && m.frame().ip < m.running().code().len() {
        let moved = m.with_ip(m.frame().ip + 1);
        let op = m.running().code()[m.frame().ip as int];
        assert(m.frame_ok(m.frames[m.frames.len() - 1]));
        assert(moved.valid());
        match op {
            OpCode::Return => {
                closing_stays_distinct(moved.dropped(1), moved.frame().slot_start as int);
            },
            OpCode::CloseUpvalue => {
                closing_stays_distinct(moved, moved.top - 1);
            },
            OpCode::Closure(chunk_id) => {
                let function = moved.chunks[chunk_id as usize];
                let list = moved.functions[function as int].upvalues@;
                captures_only_add(moved, list, Seq::empty());
                if !(dispatch(m, stop) is Stuck) {
                    captures_stay_distinct(moved, list, Seq::empty());
                }
            },
            OpCode::SetUpvalue(_) => {},
            _ => {
                instructions_are_plain(moved, op, stop);
            },
        }
    }
}

/// To begin a call of a function of the program leaves a valid machine valid.
pub proof fn function_calls_keep_validity(m: Machine, chunk_id: usize)
    requires
        m.valid(),
    ensures
        after(call_function(m, chunk_id)) matches Some(a) ==> a.valid() && grown(m, a),
{
    if m.chunks.contains_key(chunk_id) && m.top < STACK_MAX_SIZE {
        let function = m.chunks[chunk_id];
        let fresh = with_fresh_closure(m, function);
        assert(fresh.closure_ok(fresh.closures.last()));
        assert(fresh.valid());
        let closure = m.closures.len() as usize;
        let pushed = fresh.pushed(Value::Closure(closure));
        assert(pushed.valid());
        calls_are_valid(pushed, closure, m.functions[function as int].arity);
    }
}

} // verus!
