//! Objects that the host gives programs.

use vstd::prelude::*;
use vstd::string::*;

use crate::chunk::{Function, OpCode};
use crate::event::{first_named, lists_fields, stands_for, stands_for_field, ReturnValue};
use crate::inject::{distinct_names, with_object, JsonView};
use crate::laws::globals::{
    after_programs, assigning, function_count, is_given, loads_keep_variables, programs_avoid,
    programs_leave_validity, variables_outlive_programs, ProgramRun,
};
use crate::laws::growth::{after, begins, calls, captures_only_add, makes};
use crate::laws::injection::{
    entries_outlast, entry, fields_are_given, meanings_stay, means, object_is_given, variable,
};
use crate::laws::programs::{
    captured_on_stack, fits, programs_return_variables, returns_variable,
};
use crate::laws::running::then_run;
use crate::laws::sessions::{run_avoids, sessions_keep_validity, turns_keep_validity};
use crate::laws::validity::interning_is_valid;
use crate::machine::{Machine, STACK_MAX_SIZE};
use crate::semantics::{
    answered_run, call_value, close_keeps_stack, dispatch, execute, instantiate, load, turn, Answer,
    Flow,
};
use crate::object::ClassView;
use crate::string::interning;
use crate::value::Value;

verus! {

/// Whether the next instruction sets a field of the instance.
pub open spec fn sets_field_next(m: Machine, instance: usize) -> bool {
    &&& m.frames.len() > 0
    &&& m.frame().ip < m.running().code().len()
    &&& m.running().code()[m.frame().ip as int] is SetProperty
    &&& m.top >= 2
    &&& m.peek(1) == Value::Instance(instance)
}

/// Machines whose next instruction sets a field of the instance.
pub open spec fn setting_fields(instance: usize) -> spec_fn(Machine) -> bool {
    |m: Machine| sets_field_next(m, instance)
}

/// Whether the instances that there were are as they were.
spec fn same_instances(m: Machine, flow: Flow) -> bool {
    after(flow) matches Some(a) ==> begins(m.instances, a.instances)
}

proof fn call_values_keep_instances(m: Machine, callee: Value, arg_count: u8)
    ensures
        same_instances(m, call_value(m, callee, arg_count)),
{
    match callee {
        Value::Class(class) => {
            assert(same_instances(m, instantiate(m, class, arg_count)));
        },
        _ => {},
    }
}

proof fn call_instructions_keep_instances(m: Machine, op: OpCode, stop: int)
    requires
        calls(op),
    ensures
        same_instances(m, execute(m, op, stop)),
{
    match op {
        OpCode::Call(arg_count) => {
            call_values_keep_instances(m, m.peek(arg_count as int), arg_count);
        },
        OpCode::Invoke(index, arg_count) => {
            match (m.constant(index), m.peek(arg_count as int)) {
                (Some(Value::String(name)), Value::Instance(i)) => {
                    let instance = m.instances[i as int];
                    if instance.fields.contains_key(name) {
                        let v = instance.fields[name];
                        let placed = m.with_slot(m.top - arg_count - 1, v);
                        call_values_keep_instances(placed, v, arg_count);
                    }
                },
                _ => {},
            }
        },
        _ => {},
    }
}

proof fn making_instructions_keep_instances(m: Machine, op: OpCode, stop: int)
    requires
        makes(op),
        !(op is SetProperty),
    ensures
        same_instances(m, execute(m, op, stop)),
{
}

proof fn other_instructions_keep_instances(m: Machine, op: OpCode, stop: int)
    requires
        !calls(op),
        !makes(op),
        !(op is Return || op is CloseUpvalue || op is Closure),
    ensures
        same_instances(m, execute(m, op, stop)),
{
}

/// An instruction changes no instance but the one whose field `SetProperty` sets.
pub proof fn instructions_keep_instances(m: Machine, stop: int, instance: usize)
    requires
        m.valid(),
        instance < m.instances.len(),
        !sets_field_next(m, instance),
    ensures
        after(dispatch(m, stop)) matches Some(a) ==> a.instances[instance as int]
            == m.instances[instance as int],
{
    if m.frames.len() > 0 && m.frame().ip < m.running().code().len() {
        let moved = m.with_ip(m.frame().ip + 1);
        let op = m.running().code()[m.frame().ip as int];
        match op {
            OpCode::Return => {
                close_keeps_stack(moved.dropped(1), moved.frame().slot_start as int);
            },
            OpCode::CloseUpvalue => {
                close_keeps_stack(moved, moved.top - 1);
            },
            OpCode::Closure(chunk_id) => {
                let function = moved.chunks[chunk_id as usize];
                captures_only_add(
                    moved,
                    moved.functions[function as int].upvalues@,
                    Seq::empty(),
                );
            },
            OpCode::SetProperty(_) => {
                if m.top >= 2 {
                    assert(m.value_ok(m.peek(1)));
                    assert(moved.peek(1) == m.peek(1));
                }
            },
            _ => {
                if calls(op) {
                    call_instructions_keep_instances(moved, op, stop);
                } else if makes(op) {
                    making_instructions_keep_instances(moved, op, stop);
                } else {
                    other_instructions_keep_instances(moved, op, stop);
                }
            },
        }
    }
}

/// A run leaves an instance alone of which none of its instructions sets a field.
pub proof fn sessions_keep_instances(
    m: Machine,
    stop: int,
    n: nat,
    answers: Seq<Answer>,
    instance: usize,
)
    requires
        m.valid(),
        instance < m.instances.len(),
        run_avoids(m, stop, n, answers, setting_fields(instance)),
    ensures
        after(answered_run(m, stop, n, answers).0) matches Some(a) ==> a.instances[instance as int]
            == m.instances[instance as int],
    decreases n,
{
    turns_keep_validity(m, stop, answers);
    assert(!setting_fields(instance)(m));
    instructions_keep_instances(m, stop, instance);
    match turn(m, stop, answers) {
        (Flow::Next(next), rest) => {
            assert(next.instances[instance as int] == m.instances[instance as int]);
            if n > 1 {
                sessions_keep_instances(next, stop, (n - 1) as nat, rest, instance);
            }
        },
        _ => {},
    }
}

/// Instances outlive programs: programs that return leave an instance as it was of which
/// none of the instructions that they execute sets a field.
pub proof fn instances_outlive_programs(m: Machine, programs: Seq<ProgramRun>, instance: usize)
    requires
        m.valid(),
        m.functions.len() + function_count(programs) <= usize::MAX,
        instance < m.instances.len(),
        programs_avoid(m, programs, setting_fields(instance)),
    ensures
        after_programs(m, programs) matches Some(a) ==> instance < a.instances.len()
            && a.instances[instance as int] == m.instances[instance as int],
    decreases programs.len(),
{
    if programs.len() > 0 {
        let rest = programs.drop_last();
        programs_leave_validity(m, rest);
        match after_programs(m, rest) {
            Some(before) => {
                let p = programs.last();
                instances_outlive_programs(m, rest, instance);
                loads_keep_variables(before, p.functions);
                match load(before, p.functions) {
                    Flow::Next(loaded) => {
                        assert(loaded.instances == before.instances);
                        sessions_keep_validity(loaded, 0, p.budget, p.answers);
                        sessions_keep_instances(loaded, 0, p.budget, p.answers, instance);
                    },
                    _ => {},
                }
            },
            None => {},
        }
    }
}

/// The first entry of a name is an entry of that name; where there is none, no entry has
/// the name.
proof fn first_is_named(list: Seq<(Vec<u8>, ReturnValue)>, name: Seq<u8>)
    ensures
        match first_named(list, name) {
            Some(v) => exists|i: int|
                0 <= i < list.len() && (#[trigger] list[i]).0@ == name && list[i].1 == v,
            None => forall|i: int| 0 <= i < list.len() ==> (#[trigger] list[i]).0@ != name,
        },
    decreases list.len(),
{
    if list.len() > 0 && list[0].0@ != name {
        let rest = list.drop_first();
        first_is_named(rest, name);
        match first_named(rest, name) {
            Some(v) => {
                let i = choose|i: int|
                    0 <= i < rest.len() && (#[trigger] rest[i]).0@ == name && rest[i].1 == v;
                assert(list[i + 1].0@ == name && list[i + 1].1 == v);
            },
            None => {
                assert forall|i: int| 0 <= i < list.len() implies (#[trigger] list[i]).0@
                    != name by {
                    if i > 0 {
                        assert(rest[i - 1] == list[i]);
                    }
                }
            },
        }
    }
}

/// Under each name, an object that stands for an instance has the field that the
/// instance has under it, or none where the instance has none.
pub proof fn objects_show_fields(
    m: Machine,
    instance: usize,
    r: ReturnValue,
    name: Seq<u8>,
    v: JsonView,
)
    requires
        m.valid(),
        m.strings.len() <= usize::MAX,
        instance < m.instances.len(),
        stands_for(r, m, Value::Instance(instance)),
    ensures
        ({
            let fields = m.instances[instance as int].fields;
            &&& entry(m, fields, name) is None ==> r.field(name) is None
            &&& entry(m, fields, name) matches Some(w) ==> (r.field(name) matches Some(shown) && (
            means(m, w, v) ==> is_given(shown, v)))
        }),
{
    let fields = m.instances[instance as int].fields;
    assert(m.table_ok(fields));
    let list = r.fields();
    let names = choose|names: Seq<usize>| lists_fields(list, m, fields, names);
    assert(lists_fields(list, m, fields, names));
    first_is_named(list, name);
    match r.field(name) {
        Some(shown) => {
            let e = choose|e: int|
                0 <= e < list.len() && (#[trigger] list[e]).0@ == name && list[e].1 == shown;
            assert(stands_for_field(list[e], m, fields, names[e]));
            assert(m.strings[names[e] as int] == name);
            interning(m.strings, name);
            assert(m.strings.contains(m.strings[names[e] as int]));
            assert(m.place_of(name) == names[e]);
        },
        None => {
            if entry(m, fields, name) is Some {
                interning(m.strings, name);
                let place = m.place_of(name);
                assert(fields.dom().contains(place));
                assert(names.to_set().contains(place));
                let e = choose|e: int| 0 <= e < names.len() && names[e] == place;
                assert(stands_for_field(list[e], m, fields, names[e]));
                assert(list[e].0@ == name);
            }
        },
    }
}

/// Whether a result is an object with the given fields and no others, as they are found
/// by name. Arrays and objects are passed over.
pub open spec fn has_given_fields(r: ReturnValue, list: Seq<(Seq<u8>, JsonView)>) -> bool {
    &&& r is Object
    &&& forall|k: int|
        0 <= k < list.len() && !(list[k].1 is Compound) ==> (r.field(
            (#[trigger] list[k]).0,
        ) matches Some(v) && is_given(v, list[k].1))
    &&& forall|name: Seq<u8>|
        (forall|k: int|
            0 <= k < list.len() ==> (#[trigger] list[k]).0 != name || list[k].1 is Compound)
            ==> #[trigger] r.field(name) is None
}

/// Whether an instance has the given fields and no others. Arrays and objects are passed
/// over.
pub open spec fn holds_given_fields(
    m: Machine,
    instance: usize,
    list: Seq<(Seq<u8>, JsonView)>,
) -> bool {
    let fields = m.instances[instance as int].fields;
    &&& forall|k: int|
        0 <= k < list.len() && !(list[k].1 is Compound) ==> (entry(
            m,
            fields,
            (#[trigger] list[k]).0,
        ) matches Some(w) && means(m, w, list[k].1))
    &&& forall|name: Seq<u8>|
        (forall|k: int|
            0 <= k < list.len() ==> (#[trigger] list[k]).0 != name || list[k].1 is Compound)
            ==> #[trigger] entry(m, fields, name) is None
}

/// What stands for an instance with the given fields is an object with the given fields,
/// also when more strings have come.
pub proof fn given_fields_are_shown(
    m: Machine,
    later: Machine,
    instance: usize,
    list: Seq<(Seq<u8>, JsonView)>,
    r: ReturnValue,
)
    requires
        m.valid(),
        later.valid(),
        begins(m.strings, later.strings),
        later.strings.len() <= usize::MAX,
        instance < m.instances.len(),
        instance < later.instances.len(),
        later.instances[instance as int] == m.instances[instance as int],
        holds_given_fields(m, instance, list),
        stands_for(r, later, Value::Instance(instance)),
    ensures
        has_given_fields(r, list),
{
    let fields = m.instances[instance as int].fields;
    assert(m.table_ok(fields));
    assert forall|k: int| 0 <= k < list.len() && !(list[k].1 is Compound) implies (r.field(
        (#[trigger] list[k]).0,
    ) matches Some(v) && is_given(v, list[k].1)) by {
        entries_outlast(m, later, fields, list[k].0);
        meanings_stay(m, later, entry(m, fields, list[k].0).unwrap(), list[k].1);
        objects_show_fields(later, instance, r, list[k].0, list[k].1);
    }
    assert forall|name: Seq<u8>|
        (forall|k: int|
            0 <= k < list.len() ==> (#[trigger] list[k]).0 != name
                || list[k].1 is Compound) implies #[trigger] r.field(name) is None by {
        assert(entry(m, fields, name) is None);
        entries_outlast(m, later, fields, name);
        objects_show_fields(later, instance, r, name, JsonView::Null);
    }
}

/// An object leaves functions and calls as they were.
proof fn objects_keep_code(m: Machine, name: Seq<u8>, list: Seq<(Seq<u8>, JsonView)>)
    requires
        m.valid(),
        distinct_names(list),
        with_object(m, name, list).strings.len() <= usize::MAX,
    ensures
        with_object(m, name, list).frames == m.frames,
        with_object(m, name, list).functions == m.functions,
{
    let class = ClassView { name: m.place_of(name), methods: Map::empty() };
    let named = m.interning(name).with_class(class);
    interning_is_valid(m, name);
    assert(named.valid());
    fields_are_given(named, list);
}

/// An object that the host gave programs is what a program returns that returns it: under
/// each name of a given field it has that field, and it has no others. This holds also
/// after other programs have run that set none of its fields and did neither define nor
/// set the variable; it does not hold under the name of a function of the host, which
/// loading a program defines anew.
pub proof fn given_objects_are_returned(
    m: Machine,
    name: Seq<u8>,
    list: Seq<(Seq<u8>, JsonView)>,
    programs: Seq<ProgramRun>,
    idle: Machine,
    f: Function,
    index: u8,
    n: nat,
)
    requires
        m.valid(),
        m.frames.len() == 0,
        distinct_names(list),
        name != "clock".spec_bytes(),
        programs_avoid(
            with_object(m, name, list),
            programs,
            assigning(with_object(m, name, list).place_of(name)),
        ),
        programs_avoid(
            with_object(m, name, list),
            programs,
            setting_fields(m.instances.len() as usize),
        ),
        after_programs(with_object(m, name, list), programs) == Some(idle),
        idle.top + 1 < STACK_MAX_SIZE,
        captured_on_stack(idle),
        returns_variable(f, index, idle.place_of(name)),
        idle.function_ok(f),
        n >= 2,
        with_object(m, name, list).strings.len() <= usize::MAX,
        m.classes.len() <= usize::MAX,
        m.instances.len() <= usize::MAX,
        m.functions.len() + function_count(programs) <= usize::MAX,
        fits(idle, seq![(0usize, f)]),
        idle.closures.len() <= usize::MAX,
    ensures
        then_run(load(idle, seq![(0usize, f)]), 0, n) matches Flow::Done(a, w) && {
            &&& w == Value::Instance(m.instances.len() as usize)
            &&& forall|r: ReturnValue| #[trigger] stands_for(r, a, w) ==> has_given_fields(r, list)
        },
{
    let given = with_object(m, name, list);
    let i = m.instances.len() as usize;
    let w = Value::Instance(i);
    assert(given.valid() && variable(given, name) == Some(w) && i < given.instances.len()
        && holds_given_fields(given, i, list)) by {
        object_is_given(m, name, list);
    }
    objects_keep_code(m, name, list);
    programs_leave_validity(given, programs);
    variables_outlive_programs(given, programs, name);
    instances_outlive_programs(given, programs, i);
    programs_return_variables(idle, name, w, f, index, n);
    let a = after(then_run(load(idle, seq![(0usize, f)]), 0, n)).unwrap();
    assert forall|r: ReturnValue| #[trigger] stands_for(r, a, w) implies has_given_fields(
        r,
        list,
    ) by {
        given_fields_are_shown(given, a, i, list, r);
    }
}

} // verus!
