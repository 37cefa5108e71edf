//! Programs that are loaded and run.

use vstd::prelude::*;
use vstd::string::*;

use crate::chunk::{Function, OpCode, Upvalue};
use crate::laws::growth::{after, begins, captures_only_add, instructions_are_plain};
use crate::laws::injection::{builtins_keep_variables, variable};
use crate::laws::running::{runs_keep_validity, then_run};
use crate::laws::validity::{capture_is_valid, function_calls_keep_validity, search_in_range};
use crate::machine::{Machine, STACK_MAX_SIZE};
use crate::semantics::{
    call_function, capture, capture_all, captured, close, close_head, close_keeps_stack, dispatch,
    functions_ok, is_captured, load, numbered, run, search, with_builtins, with_program, Flow,
};
use crate::string::interning;
use crate::value::Value;

verus! {

/// Each function of a program is found under its number where it was put, if no two
/// have one number.
pub proof fn functions_are_numbered(list: Seq<(usize, Function)>, base: int, i: int)
    requires
        0 <= base,
        base + list.len() <= usize::MAX,
        forall|j: int, k: int|
            0 <= j < k < list.len() ==> (#[trigger] list[j]).0 != (#[trigger] list[k]).0,
        0 <= i < list.len(),
    ensures
        numbered(list, base).contains_key(list[i].0),
        numbered(list, base)[list[i].0] == base + i,
    decreases list.len(),
{
    let rest = list.drop_last();
    if i < rest.len() {
        assert(rest[i] == list[i]);
        assert(list[i].0 != list[list.len() - 1].0);
        assert forall|j: int, k: int| 0 <= j < k < rest.len() implies (#[trigger] rest[j]).0 != (
        #[trigger] rest[k]).0 by {
            assert(rest[j] == list[j] && rest[k] == list[k]);
        }
        functions_are_numbered(rest, base, i);
    }
}

/// A number that no function has stands for nothing.
pub proof fn only_functions_are_numbered(list: Seq<(usize, Function)>, base: int, id: usize)
    requires
        forall|i: int| 0 <= i < list.len() ==> (#[trigger] list[i]).0 != id,
    ensures
        !numbered(list, base).contains_key(id),
    decreases list.len(),
{
    if list.len() > 0 {
        let rest = list.drop_last();
        assert(list[list.len() - 1].0 != id);
        assert forall|i: int| 0 <= i < rest.len() implies (#[trigger] rest[i]).0 != id by {
            assert(rest[i] == list[i]);
        }
        only_functions_are_numbered(rest, base, id);
    }
}

/// The machine is valid once a program is loaded in place of the one it had, and
/// everything else is as it was but for the functions of the host.
pub proof fn programs_keep_validity(m: Machine, list: Seq<(usize, Function)>)
    requires
        m.valid(),
        functions_ok(m, list),
        m.functions.len() + list.len() <= usize::MAX,
    ensures
        with_builtins(with_program(m, list)).valid(),
{
    with_program_is_valid(m, list);
    interning(m.strings, "clock".spec_bytes());
}

/// The functions of a program and their numbers keep a machine valid.
pub proof fn with_program_is_valid(m: Machine, list: Seq<(usize, Function)>)
    requires
        m.valid(),
        functions_ok(m, list),
        m.functions.len() + list.len() <= usize::MAX,
    ensures
        with_program(m, list).valid(),
{
    let p = with_program(m, list);
    assert forall|i: int| 0 <= i < p.functions.len() implies p.function_ok(
        #[trigger] p.functions[i],
    ) by {
        if i < m.functions.len() {
            assert(m.function_ok(m.functions[i]));
        } else {
            assert(m.function_ok(list[i - m.functions.len()].1));
        }
    }
    numbers_in_range(list, m.functions.len() as int);
}

/// Numbers stand for places from `base` on.
pub proof fn numbers_in_range(list: Seq<(usize, Function)>, base: int)
    requires
        0 <= base,
        base + list.len() <= usize::MAX,
    ensures
        forall|k: usize| #[trigger]
            numbered(list, base).contains_key(k) ==> base <= numbered(list, base)[k] < base
                + list.len(),
    decreases list.len(),
{
    if list.len() > 0 {
        let rest = list.drop_last();
        numbers_in_range(rest, base);
        assert forall|k: usize| #[trigger] numbered(list, base).contains_key(k) implies base
            <= numbered(list, base)[k] < base + list.len() by {
            assert(k == list.last().0 || numbered(rest, base).contains_key(k));
        }
    }
}

/// Whether all captured variables of the list lie on the stack.
pub open spec fn captured_on_stack(m: Machine) -> bool {
    forall|i: int|
        0 <= i < m.open.len() ==> m.upvalues[(#[trigger] m.open[i]) as int].location
            < STACK_MAX_SIZE
}

/// Captured variables that lie on the stack can be closed, and those that stay open
/// lie there still.
proof fn closing_succeeds(m: Machine, last: int)
    requires
        forall|i: int| 0 <= i < m.open.len() ==> (#[trigger] m.open[i]) < m.upvalues.len(),
        captured_on_stack(m),
    ensures
        close(m, last) matches Some(a) && captured_on_stack(a),
    decreases m.open.len(),
{
    if m.open.len() > 0 {
        assert(m.upvalues[m.open[0] as int].location < STACK_MAX_SIZE);
        let b = close_head(m);
        assert forall|i: int| 0 <= i < b.open.len() implies b.upvalues[(
        #[trigger] b.open[i]) as int].location < STACK_MAX_SIZE by {
            assert(b.open[i] == m.open[i + 1]);
        }
        if m.upvalues[m.open[0] as int].location >= last {
            closing_succeeds(b, last);
        }
    }
}

/// Whether the variables that an instruction captures lie on the stack.
pub open spec fn captures_from_stack(m: Machine, op: OpCode) -> bool {
    op matches OpCode::Closure(chunk_id) ==> reach_stack(
        m,
        m.functions[m.chunks[chunk_id as usize] as int].upvalues@,
    )
}

/// Whether the slots of the running function that the list names lie on the stack.
pub open spec fn reach_stack(m: Machine, list: Seq<Upvalue>) -> bool {
    forall|i: int|
        0 <= i < list.len() && (#[trigger] list[i]).is_local ==> m.frame().slot_start
            + list[i].index < STACK_MAX_SIZE
}

/// A variable that is captured from the stack lies there.
proof fn capture_stays_on_stack(m: Machine, slot: usize)
    requires
        m.valid(),
        captured_on_stack(m),
        slot < STACK_MAX_SIZE,
        m.upvalues.len() <= usize::MAX,
    ensures
        captured_on_stack(capture(m, slot)),
{
    if !is_captured(m, slot as int) {
        search_in_range(m, slot as int, 0);
        let k = search(m, slot as int, 0);
        let a = capture(m, slot);
        assert forall|i: int| 0 <= i < a.open.len() implies a.upvalues[(
        #[trigger] a.open[i]) as int].location < STACK_MAX_SIZE by {
            if i < k {
                assert(a.open[i] == m.open[i]);
            } else if i > k {
                assert(a.open[i] == m.open[i - 1]);
            } else {
                assert(a.open[i] == m.upvalues.len());
            }
        }
    }
}

/// Variables that are captured from the stack lie there.
proof fn captures_stay_on_stack(m: Machine, list: Seq<Upvalue>, done: Seq<usize>)
    requires
        m.valid(),
        captured_on_stack(m),
        reach_stack(m, list),
        capture_all(m, list, done) matches Some((a, _)) ==> a.upvalues.len() <= usize::MAX,
    ensures
        capture_all(m, list, done) matches Some((a, _)) ==> captured_on_stack(a),
    decreases list.len() - done.len(),
{
    if done.len() < list.len() {
        let item = list[done.len() as int];
        if item.is_local {
            let slot = m.frame().slot_start + item.index;
            if slot <= usize::MAX {
                let next = capture(m, slot as usize);
                let more = done.push(captured(m, slot as usize));
                captures_only_add(next, list, more);
                capture_is_valid(m, slot as usize);
                if capture_all(next, list, more) is Some {
                    capture_stays_on_stack(m, slot as usize);
                    captures_stay_on_stack(next, list, more);
                }
            }
        } else {
            let outer = m.closures[m.frame().closure as int].upvalues;
            if item.index < outer.len() {
                captures_stay_on_stack(m, list, done.push(outer[item.index as int]));
            }
        }
    }
}

/// Captured variables of the list stay on the stack, as long as those that are captured
/// lie there. No machine holds captured variables beyond the size of the address space.
pub proof fn instructions_keep_captures_on_stack(m: Machine, stop: int)
    requires
        m.valid(),
        captured_on_stack(m),
        m.frames.len() > 0,
        m.frame().ip < m.running().code().len(),
        captures_from_stack(m, m.running().code()[m.frame().ip as int]),
        after(dispatch(m, stop)) matches Some(a) ==> a.upvalues.len() <= usize::MAX,
    ensures
        after(dispatch(m, stop)) matches Some(a) ==> captured_on_stack(a),
{
    let moved = m.with_ip(m.frame().ip + 1);
    let op = m.running().code()[m.frame().ip as int];
    assert(m.frame_ok(m.frames[m.frames.len() - 1]));
    assert(moved.valid());
    assert(captured_on_stack(moved));
    match op {
        OpCode::Return => {
            closing_succeeds(moved.dropped(1), moved.frame().slot_start as int);
        },
        OpCode::CloseUpvalue => {
            closing_succeeds(moved, moved.top - 1);
        },
        OpCode::Closure(chunk_id) => {
            let function = moved.chunks[chunk_id as usize];
            let list = moved.functions[function as int].upvalues@;
            captures_only_add(moved, list, Seq::empty());
            if !(dispatch(m, stop) is Stuck) {
                captures_stay_on_stack(moved, list, Seq::empty());
            }
        },
        OpCode::SetUpvalue(_) => {
            assert(m.closure_ok(m.closures[m.frame().closure as int]));
        },
        _ => {
            instructions_are_plain(moved, op, stop);
        },
    }
}

/// Whether a function does nothing but return the global variable whose name is at
/// the given place.
pub open spec fn returns_variable(f: Function, index: u8, place: usize) -> bool {
    &&& f.arity == 0
    &&& f.code() == seq![OpCode::GetGlobal(index), OpCode::Return]
    &&& index < f.constants().len()
    &&& f.constants()[index as int] == Value::String(place)
}

/// Whether the machine, once the program is in it, is within the limits of the address
/// space.
pub open spec fn fits(m: Machine, list: Seq<(usize, Function)>) -> bool {
    let loaded = with_builtins(with_program(m, list));
    loaded.strings.len() <= usize::MAX && loaded.functions.len() <= usize::MAX
}

/// A program that returns a variable ends with the value of that variable, leaves an
/// idle machine idle, and leaves all variables as they were. This holds of what the
/// host has given programs, except under the name of a function of the host, which
/// loading a program defines anew.
pub proof fn programs_return_variables(
    m: Machine,
    name: Seq<u8>,
    v: Value,
    f: Function,
    index: u8,
    n: nat,
)
    requires
        m.valid(),
        m.frames.len() == 0,
        m.top + 1 < STACK_MAX_SIZE,
        captured_on_stack(m),
        variable(m, name) == Some(v),
        name != "clock".spec_bytes(),
        returns_variable(f, index, m.place_of(name)),
        m.function_ok(f),
        fits(m, seq![(0usize, f)]),
        m.closures.len() <= usize::MAX,
        n >= 2,
    ensures
        then_run(load(m, seq![(0usize, f)]), 0, n) matches Flow::Done(a, w) && {
            &&& w == v
            &&& a.frames == m.frames
            &&& a.top == m.top
            &&& a.instances == m.instances
            &&& begins(m.strings, a.strings)
            &&& a.strings == with_builtins(m).strings
            &&& a.valid()
            &&& captured_on_stack(a)
            &&& forall|other: Seq<u8>|
                m.strings.contains(other) && other != "clock".spec_bytes()
                    ==> #[trigger] variable(a, other) == variable(m, other)
        },
{
    let list = seq![(0usize, f)];
    assert(list.drop_last() =~= Seq::empty());
    let program = with_program(m, list);
    let p = with_builtins(program);
    functions_are_numbered(list, m.functions.len() as int, 0);
    assert(program.functions[m.functions.len() as int] == f);
    programs_keep_validity(m, list);
    assert(program.valid()) by {
        with_program_is_valid(m, list);
    }
    assert(variable(program, name) == variable(m, name));
    builtins_keep_variables(program, name);
    let loaded = call_function(p, 0)->Next_0;
    assert(load(m, list) == Flow::Next(loaded));
    assert(loaded.running() == f);
    assert(loaded.top == m.top + 1);
    let first = loaded.with_ip(1);
    assert(first.running() == f);
    let second = first.pushed(v);
    assert(dispatch(loaded, 0) == Flow::Next(second));
    let third = second.with_ip(2);
    assert(second.running() == f);
    assert(third.peek(0) == v);
    let popped = third.dropped(1);
    assert(captured_on_stack(popped));
    closing_succeeds(popped, third.frame().slot_start as int);
    close_keeps_stack(popped, third.frame().slot_start as int);
    assert(third.frames.drop_last() =~= m.frames);
    assert(dispatch(second, 0) is Done);
    assert(run(loaded, 0, n) == run(second, 0, (n - 1) as nat));
    function_calls_keep_validity(p, 0);
    runs_keep_validity(loaded, 0, n);
    let a = after(run(loaded, 0, n)).unwrap();
    assert(captured_on_stack(a)) by {
        assert(captured_on_stack(close(popped, third.frame().slot_start as int).unwrap()));
    }
    assert forall|other: Seq<u8>|
        m.strings.contains(other) && other != "clock".spec_bytes() implies #[trigger] variable(
        a,
        other,
    ) == variable(m, other) by {
        builtins_keep_variables(program, other);
        assert(variable(program, other) == variable(m, other));
        assert(variable(a, other) == variable(p, other));
    }
}

} // verus!
