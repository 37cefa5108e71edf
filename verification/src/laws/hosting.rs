//! What a host does with a machine: loads programs, calls functions, runs them on budgets
//! and answers requests.

use vstd::prelude::*;
use vstd::string::*;

use crate::chunk::Function;
use crate::error::VmError;
use crate::event::{stands_for, Event};
use crate::inject::{with_variables, JsonView};
use crate::laws::growth::begins;
use crate::laws::injection::{
    giving_keeps_validity, meanings_stay, means, variable, variable_is_given,
};
use crate::laws::instructions::{
    code_of, inner, report, report_is_trace, same_heap, tellable_frame,
};
use crate::laws::programs::{only_functions_are_numbered, programs_keep_validity};
use crate::laws::sessions::{after_request, after_request_cost, runs_stop_at_requests};
use crate::machine::{Machine, FRAME_MAX_SIZE, STACK_MAX_SIZE};
use crate::object::UpvalueView;
use crate::semantics::{
    call_function, cost, dispatch, eval_cost, eval_function, functions_ok, go_on, go_on_cost, load,
    numbered, rounds, run, take_answer, with_builtins, with_fresh_closure,
    with_program, Answer, Flow,
};
use crate::string::{distinct, interned, interned_at, interning};
use crate::value::{NativeFn, Value};
use crate::vm::{left_after, runs, FUEL_PER_GC};

verus! {

// ---- Machines and strings ----

/// A machine has 4096 slots and can have 64 calls under way; 10240 instructions lie between
/// two looks at the garbage collector.
pub proof fn limits()
    ensures
        STACK_MAX_SIZE == 4096,
        FRAME_MAX_SIZE == 64,
        FUEL_PER_GC == 10240,
{
}

/// A machine that is blank holds nothing, and nil in every slot.
pub proof fn blank_machines_hold_nothing(i: int)
    requires
        0 <= i < 4096,
    ensures
        Machine::blank().stack.len() == 4096,
        Machine::blank().stack[i] == Value::Nil,
        Machine::blank().top == 0,
        Machine::blank().frames.len() == 0,
        Machine::blank().strings.len() == 0,
        Machine::blank().functions.len() == 0,
        Machine::blank().closures.len() == 0,
        Machine::blank().upvalues.len() == 0,
        Machine::blank().open.len() == 0,
        Machine::blank().classes.len() == 0,
        Machine::blank().instances.len() == 0,
        Machine::blank().bound_methods.len() == 0,
        Machine::blank().globals.dom() == Set::<usize>::empty(),
        Machine::blank().chunks.dom() == Set::<usize>::empty(),
        Machine::blank().wf(),
{
}

/// Bytes that are interned change nothing where they were there already, and are one more
/// string where they were not; either way the machine has them at their place.
pub proof fn strings_are_interned(strings: Seq<Seq<u8>>, bytes: Seq<u8>)
    requires
        distinct(strings),
    ensures
        strings.contains(bytes) ==> interned(strings, bytes) == strings,
        !strings.contains(bytes) ==> interned(strings, bytes).len() == strings.len() + 1,
        forall|i: int|
            0 <= i < strings.len() ==> #[trigger] interned(strings, bytes)[i] == strings[i],
        0 <= interned_at(strings, bytes) < interned(strings, bytes).len(),
        interned(strings, bytes)[interned_at(strings, bytes)] == bytes,
{
    interning(strings, bytes);
}

// ---- Calls from outside ----

/// A function of the program that the host calls begins at its first instruction. On top
/// of the arguments that it expects, a new closure of it is pushed; its first slot is
/// that of the first argument. Its captured variables are new, each its own. Nothing else
/// changes.
pub proof fn functions_are_called(m: Machine, id: usize)
    requires
        m.valid(),
        m.chunks.contains_key(id),
        m.functions[m.chunks[id] as int].arity <= m.top < 4096,
        m.frames.len() < 64,
        m.closures.len() < usize::MAX,
        m.upvalues.len() + m.functions[m.chunks[id] as int].upvalues@.len() <= usize::MAX,
    ensures
        call_function(m, id) matches Flow::Next(a) && {
            let f = m.functions[m.chunks[id] as int];
            let made = a.closures[m.closures.len() as int];
            &&& a.frames.len() == m.frames.len() + 1
            &&& forall|i: int| 0 <= i < m.frames.len() ==> #[trigger] a.frames[i] == m.frames[i]
            &&& inner(a).closure == m.closures.len()
            &&& inner(a).ip == 0
            &&& inner(a).slot_start == m.top - f.arity
            &&& code_of(a, inner(a)) == f
            &&& a.top == m.top + 1
            &&& a.stack.len() == m.stack.len()
            &&& a.stack[m.top] == Value::Closure(m.closures.len() as usize)
            &&& forall|i: int|
                0 <= i < m.stack.len() && i != m.top ==> #[trigger] a.stack[i] == m.stack[i]
            &&& a.closures.len() == m.closures.len() + 1
            &&& forall|i: int|
                0 <= i < m.closures.len() ==> #[trigger] a.closures[i] == m.closures[i]
            &&& made.function == m.chunks[id]
            &&& made.upvalues.len() == f.upvalues@.len()
            &&& a.upvalues.len() == m.upvalues.len() + f.upvalues@.len()
            &&& forall|i: int|
                0 <= i < m.upvalues.len() ==> #[trigger] a.upvalues[i] == m.upvalues[i]
            &&& forall|i: int|
                0 <= i < f.upvalues@.len() ==> (#[trigger] made.upvalues[i]) == m.upvalues.len() + i
            &&& forall|i: int|
                m.upvalues.len() <= i < a.upvalues.len() ==> #[trigger] a.upvalues[i]
                    == (UpvalueView { location: 0, closed: None })
            &&& same_heap(m, Machine { closures: m.closures, upvalues: m.upvalues, ..a })
        },
{
}

/// No function is called while as many calls are under way as can be.
pub proof fn function_calls_are_guarded(m: Machine, id: usize)
    requires
        m.valid(),
        m.chunks.contains_key(id),
        m.top < 4096,
        m.frames.len() == 64,
        m.closures.len() < usize::MAX,
        forall|i: int|
            0 <= i < m.frames.len() ==> tellable_frame(m, #[trigger] m.frames[i], 0),
    ensures
        call_function(m, id) matches Flow::Fail(a, text) && a.frames == m.frames && text
            == "Stack overflow."@ + report(a, 64),
{
    let a = with_fresh_closure(m, m.chunks[id]).pushed(
        Value::Closure(m.closures.len() as usize),
    );
    assert forall|i: int| 0 <= i < a.frames.len() implies a.frame_traceable(
        #[trigger] a.frames[i],
    ) by {
        assert(tellable_frame(m, m.frames[i], 0));
        assert(m.frame_ok(m.frames[i]));
        assert(code_of(m, m.frames[i]) == a.function_of(a.frames[i]));
    }
    report_is_trace(a, "Stack overflow."@, 64);
}

// ---- Programs ----

/// Of the functions of a program with one number, the last one counts; and there is a
/// function under a number exactly where one has it.
pub proof fn last_functions_count(list: Seq<(usize, Function)>, base: int, i: int)
    requires
        0 <= base,
        base + list.len() <= usize::MAX,
        0 <= i < list.len(),
        forall|j: int| i < j < list.len() ==> (#[trigger] list[j]).0 != list[i].0,
    ensures
        numbered(list, base).contains_key(list[i].0),
        numbered(list, base)[list[i].0] == base + i,
    decreases list.len(),
{
    let rest = list.drop_last();
    if i < rest.len() {
        assert(list[list.len() - 1].0 != list[i].0);
        assert(rest[i] == list[i]);
        assert forall|j: int| i < j < rest.len() implies (#[trigger] rest[j]).0 != rest[i].0 by {
            assert(rest[j] == list[j]);
        }
        last_functions_count(rest, base, i);
    }
}

/// A program that is loaded is called at its function 0, the last one that has this
/// number, while everything else is as it was but for the functions of the host. The
/// functions that the machine had keep their places, and those of the program follow, in
/// order.
pub proof fn programs_are_loaded(m: Machine, list: Seq<(usize, Function)>, i: int, k: int)
    requires
        m.valid(),
        functions_ok(m, list),
        0 <= i < list.len(),
        list[i].0 == 0,
        forall|j: int| i < j < list.len() ==> (#[trigger] list[j]).0 != 0,
        list[i].1.arity <= m.top < 4096,
        m.frames.len() < 64,
        0 <= k < list.len(),
        forall|j: int| k < j < list.len() ==> (#[trigger] list[j]).0 != list[k].0,
        m.functions.len() + list.len() <= usize::MAX,
        m.strings.len() < usize::MAX,
        m.closures.len() < usize::MAX,
        m.upvalues.len() + list[i].1.upvalues@.len() <= usize::MAX,
    ensures
        load(m, list) matches Flow::Next(a) && {
            &&& a.frames.len() == m.frames.len() + 1
            &&& forall|j: int| 0 <= j < m.frames.len() ==> #[trigger] a.frames[j] == m.frames[j]
            &&& code_of(a, inner(a)) == list[i].1
            &&& inner(a).ip == 0
            &&& inner(a).slot_start == m.top - list[i].1.arity
            &&& a.top == m.top + 1
            &&& forall|j: int| 0 <= j < m.top ==> #[trigger] a.stack[j] == m.stack[j]
            &&& a.functions.len() == m.functions.len() + list.len()
            &&& forall|j: int|
                0 <= j < m.functions.len() ==> #[trigger] a.functions[j] == m.functions[j]
            &&& a.chunks.contains_key(list[k].0)
            &&& a.functions[a.chunks[list[k].0] as int] == list[k].1
            &&& variable(a, "clock".spec_bytes()) == Some(Value::NativeFunction(NativeFn::Clock))
            &&& begins(m.strings, a.strings)
            &&& a.classes == m.classes
            &&& a.instances == m.instances
            &&& a.bound_methods == m.bound_methods
            &&& a.open == m.open
        },
{
    let base = m.functions.len() as int;
    let p = with_program(m, list);
    let b = with_builtins(p);
    last_functions_count(list, base, i);
    last_functions_count(list, base, k);
    programs_keep_validity(m, list);
    interning(m.strings, "clock".spec_bytes());
    assert(b.functions[base + i] == list[i].1);
    assert(b.functions[base + k] == list[k].1);
    functions_are_called(b, 0);
    let a = load(m, list)->Next_0;
    let name = "clock".spec_bytes();
    interning(a.strings, name);
    assert(a.strings.contains(name));
    assert(a.place_of(name) == m.place_of(name));
}

/// Code finds no functions but those of the program that was loaded last.
pub proof fn programs_are_replaced(m: Machine, list: Seq<(usize, Function)>, id: usize)
    requires
        forall|i: int| 0 <= i < list.len() ==> (#[trigger] list[i]).0 != id,
    ensures
        load(m, list) matches Flow::Next(a) ==> !a.chunks.contains_key(id),
{
    only_functions_are_numbered(list, m.functions.len() as int, id);
}

// ---- Budgets ----

/// A budget pays for as many instructions as it has, and for one where it has none; what
/// is left is what was not used, down to the limit of its counter.
pub proof fn budgets_pay(budget: int, used: nat)
    ensures
        budget >= 1 ==> rounds(budget) == budget,
        budget < 1 ==> rounds(budget) == 1,
        budget - used >= i32::MIN ==> left_after(budget, used) + used == budget,
        budget - used < i32::MIN ==> left_after(budget, used) == i32::MIN,
{
}

/// A run of one instruction is that instruction. It is charged where the machine goes on or
/// asks, and free where the run ends.
pub proof fn runs_execute(m: Machine, stop: int)
    ensures
        run(m, stop, 1) == dispatch(m, stop),
        dispatch(m, stop) is Next || dispatch(m, stop) is Ask ==> cost(m, stop, 1) == 1,
        dispatch(m, stop) is Done || dispatch(m, stop) is Fail || dispatch(m, stop) is Stuck
            ==> cost(m, stop, 1) == 0,
{
}

/// A call that the host evaluates runs until no more calls are under way than before it;
/// a call that fails runs nothing, and is free.
pub proof fn evaluations_run_calls(m: Machine, id: usize, n: nat)
    ensures
        call_function(m, id) matches Flow::Next(called) ==> eval_function(m, id, n) == run(
            called,
            m.frames.len() as int,
            n,
        ) && eval_cost(m, id, n) == cost(called, m.frames.len() as int, n),
        !(call_function(m, id) is Next) ==> eval_function(m, id, n) == call_function(m, id)
            && eval_cost(m, id, n) == 0,
{
}

/// What a run that could go on gives its host is what came of it.
pub proof fn runs_are_told(flow: Flow, r: Result<Event, VmError>, after: Machine)
    requires
        runs(flow, r, after),
    ensures
        match r {
            Ok(Event::Next) => flow == Flow::Next(after),
            Ok(Event::Done(value)) => flow matches Flow::Done(a, v) && a == after && stands_for(
                value,
                after,
                v,
            ),
            Ok(Event::Ask(request)) => flow == Flow::Ask(after, request@),
            Err(VmError::RuntimeError(text)) => flow == Flow::Fail(after, text@),
            Err(VmError::CompileError) => false,
        },
{
}

// ---- Answers ----

/// An answer is pushed: a value as it is, if what it refers to is there; a text as a
/// string of its bytes. That a value was printed pushes nothing. Nothing else changes.
pub proof fn answers_are_pushed(m: Machine, v: Value, bytes: Seq<u8>)
    requires
        m.valid(),
        m.top < 4096,
        m.strings.len() < usize::MAX,
    ensures
        take_answer(m, Answer::Printed) == Flow::Next(m),
        m.value_ok(v) ==> (take_answer(m, Answer::Value(v)) matches Flow::Next(a) && a.top == m.top
            + 1 && a.stack == m.stack.update(m.top, v) && a.frames == m.frames && same_heap(m, a)),
        !m.value_ok(v) ==> take_answer(m, Answer::Value(v)) is Stuck,
        take_answer(m, Answer::Text(bytes)) matches Flow::Next(a) && {
            &&& a.top == m.top + 1
            &&& a.stack[m.top] matches Value::String(p) && p < a.strings.len()
                && a.strings[p as int] == bytes
            &&& forall|i: int|
                0 <= i < m.stack.len() && i != m.top ==> #[trigger] a.stack[i] == m.stack[i]
            &&& begins(m.strings, a.strings)
            &&& a.strings.len() <= m.strings.len() + 1
            &&& a.frames == m.frames
            &&& same_heap(m, Machine { strings: m.strings, ..a })
        },
{
    interning(m.strings, bytes);
}

/// To go on with an answer is what comes after a request in a run whose requests are
/// answered, up to the next request; and it is charged the same.
pub proof fn answers_go_on(m: Machine, stop: int, answer: Answer, budget: int)
    ensures
        go_on(m, stop, answer, budget) == after_request(m, stop, budget, seq![answer]).0,
        go_on_cost(m, stop, answer, budget) == after_request_cost(
            m,
            stop,
            budget,
            seq![answer],
        ),
{
    assert(seq![answer].drop_first() =~= Seq::empty());
    match take_answer(m, answer) {
        Flow::Next(next) => {
            if budget > 0 {
                runs_stop_at_requests(next, stop, budget as nat);
            }
        },
        _ => {},
    }
}

// ---- What the host gives ----

/// Of the variables with one name that the host gives, the last one counts that is no
/// array or object.
pub proof fn last_variables_count(m: Machine, list: Seq<(Seq<u8>, JsonView)>, i: int)
    requires
        m.valid(),
        0 <= i < list.len(),
        !(list[i].1 is Compound),
        forall|j: int|
            i < j < list.len() ==> (#[trigger] list[j]).0 != list[i].0 || list[j].1 is Compound,
        with_variables(m, list).strings.len() <= usize::MAX,
    ensures
        variable(with_variables(m, list), list[i].0) matches Some(w) && means(
            with_variables(m, list),
            w,
            list[i].1,
        ),
    decreases list.len(),
{
    let rest = list.drop_last();
    let before = with_variables(m, rest);
    let last = list[list.len() - 1];
    giving_keeps_validity(m, list);
    giving_keeps_validity(m, rest);
    variable_is_given(before, last.0, last.1, list[i].0);
    if i < rest.len() {
        assert(rest[i] == list[i]);
        assert forall|j: int| i < j < rest.len() implies (#[trigger] rest[j]).0 != rest[i].0
            || rest[j].1 is Compound by {
            assert(rest[j] == list[j]);
        }
        last_variables_count(m, rest, i);
        assert(list[list.len() - 1].0 != list[i].0 || list[list.len() - 1].1 is Compound);
        let w = variable(before, list[i].0).unwrap();
        meanings_stay(before, with_variables(m, list), w, list[i].1);
    }
}

} // verus!
