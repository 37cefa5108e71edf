//! Global variables and the programs that leave them alone.

use vstd::prelude::*;
use vstd::string::*;

use crate::chunk::{Function, OpCode};
use crate::event::{stands_for, ReturnValue};
use crate::inject::{distinct_names, with_variables, JsonView};
use crate::laws::growth::{after, begins, calls, captures_only_add, makes};
use crate::laws::injection::{
    builtins_keep_variables, giving_keeps_validity, meanings_stay, means, places_stay, variable,
    variables_are_given,
};
use crate::laws::programs::{
    captured_on_stack, fits, programs_keep_validity, programs_return_variables, returns_variable,
    with_program_is_valid,
};
use crate::laws::running::then_run;
use crate::laws::sessions::{
    answers_keep_validity, run_avoids, sessions_keep_calls, sessions_keep_validity,
    turns_keep_validity,
};
use crate::laws::validity::{
    function_calls_keep_validity, instructions_keep_validity, interning_is_valid,
};
use crate::machine::{Machine, STACK_MAX_SIZE};
use crate::semantics::{
    answered_run, call_value, close_keeps_stack, dispatch, execute, functions_ok,
    instantiate, invoke, load, turn, with_builtins, with_program, Answer, Flow,
};
use crate::value::Value;

verus! {

/// Whether an instruction of a function defines or sets the global variable whose name
/// is at the given place.
pub open spec fn assigns(f: Function, op: OpCode, place: usize) -> bool {
    match op {
        OpCode::DefineGlobal(index) => index < f.constants().len()
            && f.constants()[index as int] == Value::String(place),
        OpCode::SetGlobal(index) => index < f.constants().len()
            && f.constants()[index as int] == Value::String(place),
        _ => false,
    }
}

/// Whether the next instruction defines or sets the global variable whose name is at the
/// given place.
pub open spec fn assigns_next(m: Machine, place: usize) -> bool {
    m.frames.len() > 0 && m.frame().ip < m.running().code().len() && assigns(
        m.running(),
        m.running().code()[m.frame().ip as int],
        place,
    )
}

/// Machines whose next instruction defines or sets the variable.
pub open spec fn assigning(place: usize) -> spec_fn(Machine) -> bool {
    |m: Machine| assigns_next(m, place)
}

/// Whether no instruction of a function defines or sets the variable.
pub open spec fn spares(f: Function, place: usize) -> bool {
    forall|i: int| 0 <= i < f.code().len() ==> !assigns(f, #[trigger] f.code()[i], place)
}

/// Whether no function of the machine defines or sets the variable.
pub open spec fn all_spare(m: Machine, place: usize) -> bool {
    forall|i: int| 0 <= i < m.functions.len() ==> spares(#[trigger] m.functions[i], place)
}

/// Whether a global variable has the value that it had, or none as it had.
pub open spec fn same_global(m: Machine, after: Machine, place: usize) -> bool {
    &&& after.globals.contains_key(place) == m.globals.contains_key(place)
    &&& m.globals.contains_key(place) ==> after.globals[place] == m.globals[place]
}

/// Whether all global variables are as they were.
spec fn same_globals(m: Machine, flow: Flow) -> bool {
    after(flow) matches Some(a) ==> a.globals == m.globals
}

proof fn call_values_keep_globals(m: Machine, callee: Value, arg_count: u8)
    ensures
        same_globals(m, call_value(m, callee, arg_count)),
{
    match callee {
        Value::Class(class) => {
            assert(same_globals(m, instantiate(m, class, arg_count)));
        },
        _ => {},
    }
}

proof fn invocations_keep_globals(m: Machine, name: usize, arg_count: u8)
    ensures
        same_globals(m, invoke(m, name, arg_count)),
{
    match m.peek(arg_count as int) {
        Value::Instance(i) => {
            let instance = m.instances[i as int];
            if instance.fields.contains_key(name) {
                let v = instance.fields[name];
                call_values_keep_globals(m.with_slot(m.top - arg_count - 1, v), v, arg_count);
            }
        },
        _ => {},
    }
}

proof fn call_instructions_keep_globals(m: Machine, op: OpCode, stop: int)
    requires
        calls(op),
    ensures
        same_globals(m, execute(m, op, stop)),
{
    match op {
        OpCode::Call(arg_count) => {
            call_values_keep_globals(m, m.peek(arg_count as int), arg_count);
        },
        OpCode::Invoke(index, arg_count) => {
            match m.constant(index) {
                Some(Value::String(name)) => invocations_keep_globals(m, name, arg_count),
                _ => {},
            }
        },
        _ => {},
    }
}

proof fn making_instructions_keep_globals(m: Machine, op: OpCode, stop: int)
    requires
        makes(op),
    ensures
        same_globals(m, execute(m, op, stop)),
{
}

proof fn other_instructions_keep_globals(m: Machine, op: OpCode, stop: int)
    requires
        !calls(op),
        !makes(op),
        !(op is Return || op is CloseUpvalue || op is Closure),
        !(op is DefineGlobal || op is SetGlobal),
    ensures
        same_globals(m, execute(m, op, stop)),
{
}

/// An instruction changes no global variable but the one that `DefineGlobal` or
/// `SetGlobal` names.
pub proof fn instructions_keep_globals(m: Machine, stop: int, place: usize)
    requires
        !assigns_next(m, place),
    ensures
        after(dispatch(m, stop)) matches Some(a) ==> same_global(m, a, place),
{
    if m.frames.len() > 0 && m.frame().ip < m.running().code().len() {
        let moved = m.with_ip(m.frame().ip + 1);
        let op = m.running().code()[m.frame().ip as int];
        match op {
            OpCode::Return => {
                close_keeps_stack(moved.dropped(1), moved.frame().slot_start as int);
            },
            OpCode::CloseUpvalue => {
                close_keeps_stack(moved, moved.top - 1);
            },
            OpCode::Closure(chunk_id) => {
                let function = moved.chunks[chunk_id as usize];
                captures_only_add(
                    moved,
                    moved.functions[function as int].upvalues@,
                    Seq::empty(),
                );
            },
            OpCode::DefineGlobal(_) => {
                assert(moved.running() == m.running());
            },
            OpCode::SetGlobal(_) => {
                assert(moved.running() == m.running());
            },
            _ => {
                if calls(op) {
                    call_instructions_keep_globals(moved, op, stop);
                } else if makes(op) {
                    making_instructions_keep_globals(moved, op, stop);
                } else {
                    other_instructions_keep_globals(moved, op, stop);
                }
            },
        }
    }
}

/// A run leaves a global variable alone that none of its instructions defines or sets,
/// whatever its requests are answered.
pub proof fn sessions_keep_globals(
    m: Machine,
    stop: int,
    n: nat,
    answers: Seq<Answer>,
    place: usize,
)
    requires
        m.valid(),
        run_avoids(m, stop, n, answers, assigning(place)),
    ensures
        after(answered_run(m, stop, n, answers).0) matches Some(a) ==> same_global(m, a, place),
    decreases n,
{
    turns_keep_validity(m, stop, answers);
    assert(!assigning(place)(m));
    instructions_keep_globals(m, stop, place);
    instructions_keep_validity(m, stop);
    match dispatch(m, stop) {
        Flow::Ask(asking, _) => {
            if answers.len() > 0 {
                answers_keep_validity(asking, answers[0]);
            }
        },
        _ => {},
    }
    match turn(m, stop, answers) {
        (Flow::Next(next), rest) => {
            assert(same_global(m, next, place));
            if n > 1 {
                sessions_keep_globals(next, stop, (n - 1) as nat, rest, place);
            }
        },
        _ => {},
    }
}

/// Where no function of the machine defines or sets a variable, no instruction of a run
/// does.
pub proof fn sparing_code_assigns_nothing(
    m: Machine,
    stop: int,
    n: nat,
    answers: Seq<Answer>,
    place: usize,
)
    requires
        m.valid(),
        all_spare(m, place),
    ensures
        run_avoids(m, stop, n, answers, assigning(place)),
    decreases n,
{
    turns_keep_validity(m, stop, answers);
    if m.frames.len() > 0 && m.frame().ip < m.running().code().len() {
        assert(m.frame_ok(m.frames[m.frames.len() - 1]));
        assert(m.closure_ok(m.closures[m.frame().closure as int]));
        let function = m.closures[m.frame().closure as int].function as int;
        assert(spares(m.functions[function], place));
        assert(!assigns(m.running(), m.running().code()[m.frame().ip as int], place));
    }
    match turn(m, stop, answers) {
        (Flow::Next(next), rest) => {
            if n > 1 {
                assert(next.functions == m.functions);
                sparing_code_assigns_nothing(next, stop, (n - 1) as nat, rest, place);
            }
        },
        _ => {},
    }
}

/// Loading a program leaves a valid machine valid, adds the functions of the program,
/// and changes no variable but those under the names of the host's functions.
pub proof fn loads_keep_variables(m: Machine, list: Seq<(usize, Function)>)
    requires
        m.valid(),
        m.functions.len() + list.len() <= usize::MAX,
    ensures
        after(load(m, list)) matches Some(a) ==> {
            &&& a.valid()
            &&& a.functions == m.functions + list.map_values(|item: (usize, Function)| item.1)
            &&& begins(m.strings, a.strings)
            &&& a.strings.len() <= usize::MAX ==> forall|name: Seq<u8>|
                m.strings.contains(name) && name != "clock".spec_bytes()
                    ==> #[trigger] variable(a, name) == variable(m, name)
        },
{
    if functions_ok(m, list) {
        let program = with_program(m, list);
        let p = with_builtins(program);
        with_program_is_valid(m, list);
        programs_keep_validity(m, list);
        function_calls_keep_validity(p, 0);
        interning_is_valid(program, "clock".spec_bytes());
        match after(load(m, list)) {
            Some(a) => {
                assert(a.globals == p.globals && a.strings == p.strings);
                if a.strings.len() <= usize::MAX {
                    assert forall|name: Seq<u8>|
                        m.strings.contains(name) && name
                            != "clock".spec_bytes() implies #[trigger] variable(a, name)
                        == variable(m, name) by {
                        builtins_keep_variables(program, name);
                        assert(variable(program, name) == variable(m, name));
                        assert(variable(a, name) == variable(p, name));
                    }
                }
            },
            None => {},
        }
    }
}

/// A program, the budget that its run is given, and what its requests are answered.
pub struct ProgramRun {
    pub functions: Seq<(usize, Function)>,
    pub budget: nat,
    pub answers: Seq<Answer>,
}

/// How a program ends that is loaded and run.
pub open spec fn whole_run(m: Machine, program: ProgramRun) -> Flow {
    match load(m, program.functions) {
        Flow::Next(loaded) => answered_run(loaded, 0, program.budget, program.answers).0,
        flow => flow,
    }
}

/// The machine after programs have been loaded and run one after the other; `None`
/// where one of them does not return.
pub open spec fn after_programs(m: Machine, programs: Seq<ProgramRun>) -> Option<Machine>
    decreases programs.len(),
{
    if programs.len() == 0 {
        Some(m)
    } else {
        match after_programs(m, programs.drop_last()) {
            Some(before) => match whole_run(before, programs.last()) {
                Flow::Done(a, _) => Some(a),
                _ => None,
            },
            None => None,
        }
    }
}

/// The number of functions of all programs.
pub open spec fn function_count(programs: Seq<ProgramRun>) -> nat
    decreases programs.len(),
{
    if programs.len() == 0 {
        0
    } else {
        function_count(programs.drop_last()) + programs.last().functions.len()
    }
}

/// Whether none of the machines of the runs of programs, as they are before each
/// instruction, is as told.
pub open spec fn programs_avoid(
    m: Machine,
    programs: Seq<ProgramRun>,
    bad: spec_fn(Machine) -> bool,
) -> bool
    decreases programs.len(),
{
    programs.len() > 0 ==> {
        let p = programs.last();
        &&& programs_avoid(m, programs.drop_last(), bad)
        &&& after_programs(m, programs.drop_last()) matches Some(before) ==> (load(
            before,
            p.functions,
        ) matches Flow::Next(loaded) ==> run_avoids(loaded, 0, p.budget, p.answers, bad))
    }
}

/// Programs that return leave a valid machine valid and an idle machine idle, and
/// strings keep their places.
pub proof fn programs_leave_validity(m: Machine, programs: Seq<ProgramRun>)
    requires
        m.valid(),
        m.functions.len() + function_count(programs) <= usize::MAX,
    ensures
        after_programs(m, programs) matches Some(a) ==> {
            &&& a.valid()
            &&& begins(m.strings, a.strings)
            &&& a.functions.len() == m.functions.len() + function_count(programs)
            &&& m.frames.len() == 0 ==> a.frames.len() == 0
        },
    decreases programs.len(),
{
    if programs.len() > 0 {
        programs_leave_validity(m, programs.drop_last());
        match after_programs(m, programs.drop_last()) {
            Some(before) => {
                let p = programs.last();
                loads_keep_variables(before, p.functions);
                match load(before, p.functions) {
                    Flow::Next(loaded) => {
                        sessions_keep_validity(loaded, 0, p.budget, p.answers);
                        sessions_keep_calls(loaded, 0, p.budget, p.answers);
                    },
                    _ => {},
                }
            },
            None => {},
        }
    }
}

/// Variables outlive programs: programs that return leave a variable as it was that none
/// of the instructions that they execute defines or sets, except under the name of a
/// function of the host.
pub proof fn variables_outlive_programs(m: Machine, programs: Seq<ProgramRun>, name: Seq<u8>)
    requires
        m.valid(),
        m.functions.len() + function_count(programs) <= usize::MAX,
        m.strings.contains(name),
        name != "clock".spec_bytes(),
        programs_avoid(m, programs, assigning(m.place_of(name))),
        after_programs(m, programs) matches Some(a) ==> a.strings.len() <= usize::MAX,
    ensures
        after_programs(m, programs) matches Some(a) ==> {
            &&& variable(a, name) == variable(m, name)
            &&& a.strings.contains(name)
            &&& a.place_of(name) == m.place_of(name)
        },
    decreases programs.len(),
{
    let place = m.place_of(name);
    if programs.len() > 0 {
        let rest = programs.drop_last();
        programs_leave_validity(m, rest);
        match after_programs(m, rest) {
            Some(before) => {
                let p = programs.last();
                loads_keep_variables(before, p.functions);
                match load(before, p.functions) {
                    Flow::Next(loaded) => {
                        sessions_keep_validity(loaded, 0, p.budget, p.answers);
                        match answered_run(loaded, 0, p.budget, p.answers).0 {
                            Flow::Done(a, _) => {
                                variables_outlive_programs(m, rest, name);
                                sessions_keep_globals(loaded, 0, p.budget, p.answers, place);
                                assert(variable(loaded, name) == variable(before, name));
                                places_stay(before.strings, loaded.strings, name);
                                places_stay(loaded.strings, a.strings, name);
                            },
                            _ => {},
                        }
                    },
                    _ => {},
                }
            },
            None => {},
        }
    }
}

/// Whether the value that a program returns is the one that the host gave.
pub open spec fn is_given(r: ReturnValue, v: JsonView) -> bool {
    match v {
        JsonView::Null => r is Nil,
        JsonView::Bool(b) => r == ReturnValue::Boolean(b),
        JsonView::Number(n) => r == ReturnValue::Number(n),
        JsonView::String(s) => r matches ReturnValue::String(bytes) && bytes@ == s,
        JsonView::Compound => false,
    }
}

/// What stands for a value that means what the host gave is what the host gave.
pub proof fn results_are_what_was_given(m: Machine, w: Value, v: JsonView, r: ReturnValue)
    requires
        means(m, w, v),
        stands_for(r, m, w),
    ensures
        is_given(r, v),
{
}

/// A variable that the host gave programs is what a program returns that returns it,
/// also after other programs have run that did neither define nor set it. This does not
/// hold under the name of a function of the host, which loading a program defines anew.
pub proof fn given_variables_are_returned(
    m: Machine,
    list: Seq<(Seq<u8>, JsonView)>,
    i: int,
    programs: Seq<ProgramRun>,
    idle: Machine,
    f: Function,
    index: u8,
    n: nat,
)
    requires
        m.valid(),
        m.frames.len() == 0,
        distinct_names(list),
        0 <= i < list.len(),
        !(list[i].1 is Compound),
        list[i].0 != "clock".spec_bytes(),
        programs_avoid(
            with_variables(m, list),
            programs,
            assigning(with_variables(m, list).place_of(list[i].0)),
        ),
        after_programs(with_variables(m, list), programs) == Some(idle),
        idle.top + 1 < STACK_MAX_SIZE,
        captured_on_stack(idle),
        returns_variable(f, index, idle.place_of(list[i].0)),
        idle.function_ok(f),
        n >= 2,
        with_variables(m, list).strings.len() <= usize::MAX,
        m.functions.len() + function_count(programs) <= usize::MAX,
        fits(idle, seq![(0usize, f)]),
        idle.closures.len() <= usize::MAX,
    ensures
        then_run(load(idle, seq![(0usize, f)]), 0, n) matches Flow::Done(a, w) && {
            &&& means(a, w, list[i].1)
            &&& forall|r: ReturnValue| #[trigger] stands_for(r, a, w) ==> is_given(r, list[i].1)
        },
{
    let given = with_variables(m, list);
    let name = list[i].0;
    giving_keeps_validity(m, list);
    variables_are_given(m, list, i);
    let w = variable(given, name).unwrap();
    programs_leave_validity(given, programs);
    variables_outlive_programs(given, programs, name);
    programs_return_variables(idle, name, w, f, index, n);
    let a = after(then_run(load(idle, seq![(0usize, f)]), 0, n)).unwrap();
    meanings_stay(given, a, w, list[i].1);
    assert forall|r: ReturnValue| #[trigger] stands_for(r, a, w) implies is_given(r, list[i].1) by {
        results_are_what_was_given(a, w, list[i].1, r);
    }
}

} // verus!
