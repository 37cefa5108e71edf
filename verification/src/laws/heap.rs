//! What instructions do to closures, captured variables, classes and instances.

use vstd::prelude::*;
use vstd::utf8::*;

use crate::chunk::{OpCode, Upvalue};
use crate::laws::captures::{capture_finds_slot, capture_keeps_order, downwards, slot_at};
use crate::laws::instructions::{
    about_to, computes, errors_are_reported, fails, goes_to, has_constant, inner,
    instructions_are_executed, nth, past, replaced, same_heap, tellable,
};
use crate::laws::texts::strings_are_joined;
use crate::laws::validity::{capture_is_valid, search_in_range};
use crate::machine::Machine;
use crate::object::{BoundMethod, ClassView};
use crate::semantics::{capture, capture_all, captured, dispatch, search, Flow};
use crate::string::interning;
use crate::text::shown;
use crate::value::Value;

verus! {

// ---- Closures ----

/// Whether the running closure can capture what the list asks for.
pub open spec fn can_capture(m: Machine, list: Seq<Upvalue>) -> bool {
    forall|i: int|
        0 <= i < list.len() ==> if (#[trigger] list[i]).is_local {
            inner(m).slot_start + list[i].index <= usize::MAX
        } else {
            list[i].index < m.closures[inner(m).closure as int].upvalues.len()
        }
}

/// Whether the captured variable is the one that an entry of a list asks for: where the
/// entry is local, the one in the list of open variables of the slot; where it is not,
/// the one at that place among those of the running closure.
pub open spec fn asked_for(m: Machine, after: Machine, item: Upvalue, u: usize) -> bool {
    if item.is_local {
        &&& after.open.contains(u)
        &&& u < after.upvalues.len()
        &&& after.upvalues[u as int].location == inner(m).slot_start + item.index
    } else {
        u == m.closures[inner(m).closure as int].upvalues[item.index as int]
    }
}

/// Whether captured variables have only been added, each open and in the list of open
/// variables; and where that list went downwards, it still does, each slot once.
pub open spec fn captures_added(m: Machine, after: Machine) -> bool {
    &&& m.upvalues.len() <= after.upvalues.len()
    &&& forall|u: int|
        0 <= u < m.upvalues.len() ==> #[trigger] after.upvalues[u] == m.upvalues[u]
    &&& forall|u: int|
        m.upvalues.len() <= u < after.upvalues.len() ==> (
        #[trigger] after.upvalues[u]).closed is None
    &&& forall|u: usize| #[trigger]
        after.open.contains(u) <==> m.open.contains(u) || m.upvalues.len() <= u
            < after.upvalues.len()
    &&& downwards(m) ==> downwards(after)
}

/// A captured variable adds itself alone.
proof fn capture_adds_variable(m: Machine, slot: usize)
    requires
        m.valid(),
        m.upvalues.len() < usize::MAX,
    ensures
        captures_added(m, capture(m, slot)),
        capture(m, slot).valid(),
        capture(m, slot).upvalues.len() <= m.upvalues.len() + 1,
        capture(m, slot).open.contains(captured(m, slot)),
        captured(m, slot) < capture(m, slot).upvalues.len(),
        capture(m, slot).upvalues[captured(m, slot) as int].location == slot,
{
    let a = capture(m, slot);
    capture_finds_slot(m, slot);
    capture_is_valid(m, slot);
    if downwards(m) {
        capture_keeps_order(m, slot);
    }
    let k = search(m, slot as int, 0);
    search_in_range(m, slot as int, 0);
    let new = m.upvalues.len() as usize;
    assert forall|u: usize| #[trigger] a.open.contains(u) <==> m.open.contains(u)
        || m.upvalues.len() <= u < a.upvalues.len() by {
        if a.open.contains(u) {
            let j = choose|j: int| 0 <= j < a.open.len() && a.open[j] == u;
            if a.open != m.open && j != k {
                assert(m.open.contains(m.open[if j < k {
                    j
                } else {
                    j - 1
                }]));
            }
        }
        if m.open.contains(u) {
            let j = choose|j: int| 0 <= j < m.open.len() && m.open[j] == u;
            assert(a.open != m.open ==> a.open[if j < k {
                j
            } else {
                j + 1
            }] == u);
        }
        if m.upvalues.len() <= u < a.upvalues.len() {
            assert(a.open[k] == u);
        }
    }
    let c = choose|c: int| 0 <= c < a.open.len() && a.open[c] == captured(m, slot);
    assert(a.open[c] < a.upvalues.len());
}

/// The order of the list is a matter of the captured variables alone.
proof fn order_is_kept(m: Machine, after: Machine)
    requires
        downwards(m),
        after.open == m.open,
        after.upvalues == m.upvalues,
    ensures
        downwards(after),
{
    assert forall|i: int, j: int| 0 <= i < j < after.open.len() implies #[trigger] slot_at(after, i)
        > #[trigger] slot_at(after, j) by {
        assert(slot_at(m, i) > slot_at(m, j));
    }
}

/// Capturing what a list asks for gives one variable for each entry, as asked for.
proof fn lists_are_captured(m: Machine, list: Seq<Upvalue>, done: Seq<usize>)
    requires
        m.valid(),
        m.frames.len() > 0,
        done.len() <= list.len(),
        can_capture(m, list),
        m.upvalues.len() + list.len() - done.len() < usize::MAX,
    ensures
        capture_all(m, list, done) matches Some((a, us)) && {
            &&& us.len() == list.len()
            &&& forall|i: int| 0 <= i < done.len() ==> us[i] == #[trigger] done[i]
            &&& forall|i: int|
                done.len() <= i < list.len() ==> asked_for(m, a, #[trigger] list[i], us[i])
            &&& captures_added(m, a)
            &&& a == (Machine { upvalues: a.upvalues, open: a.open, ..m })
        },
    decreases list.len() - done.len(),
{
    if done.len() < list.len() {
        let n = done.len() as int;
        let item = list[n];
        if item.is_local {
            let slot = (inner(m).slot_start + item.index) as usize;
            let c = captured(m, slot);
            let m1 = capture(m, slot);
            capture_adds_variable(m, slot);
            lists_are_captured(m1, list, done.push(c));
            let (a, us) = capture_all(m1, list, done.push(c)).unwrap();
            assert(us[n] == done.push(c)[n]);
            assert(a.upvalues[c as int] == m1.upvalues[c as int]);
            assert forall|i: int| 0 <= i < done.len() implies us[i] == #[trigger] done[i] by {
                assert(done.push(c)[i] == done[i]);
            }
            assert forall|u: int| 0 <= u < m.upvalues.len() implies #[trigger] a.upvalues[u]
                == m.upvalues[u] by {
                assert(m1.upvalues[u] == m.upvalues[u]);
            }
            assert forall|u: int| m.upvalues.len() <= u < a.upvalues.len() implies (
            #[trigger] a.upvalues[u]).closed is None by {
                if u < m1.upvalues.len() {
                    assert(a.upvalues[u] == m1.upvalues[u]);
                }
            }
            assert forall|u: usize| #[trigger] a.open.contains(u) <==> m.open.contains(u)
                || m.upvalues.len() <= u < a.upvalues.len() by {
                assert(m1.open.contains(u) <==> m.open.contains(u) || m.upvalues.len() <= u
                    < m1.upvalues.len());
            }
        } else {
            let u = m.closures[inner(m).closure as int].upvalues[item.index as int];
            lists_are_captured(m, list, done.push(u));
            let (a, us) = capture_all(m, list, done.push(u)).unwrap();
            assert(us[n] == done.push(u)[n]);
            assert forall|i: int| 0 <= i < done.len() implies us[i] == #[trigger] done[i] by {
                assert(done.push(u)[i] == done[i]);
            }
        }
    }
}

/// `Closure` pushes a new closure of the function under the number. It has one captured
/// variable for each entry of the function's list, in order, the one that the entry asks
/// for. Captured variables are only added, for slots that had none.
pub proof fn closures_capture(m: Machine, stop: int, id: u8)
    requires
        m.valid(),
        about_to(m, OpCode::Closure(id)),
        m.chunks.contains_key(id as usize),
        can_capture(m, m.functions[m.chunks[id as usize] as int].upvalues@),
        m.top < 4096,
        m.upvalues.len() + m.functions[m.chunks[id as usize] as int].upvalues@.len() < usize::MAX,
    ensures
        dispatch(m, stop) matches Flow::Next(a) && {
            let list = m.functions[m.chunks[id as usize] as int].upvalues@;
            let made = a.closures[m.closures.len() as int];
            &&& goes_to(m, a, inner(m).ip + 1)
            &&& replaced(m, a, 0, seq![Value::Closure(m.closures.len() as usize)])
            &&& a.closures.len() == m.closures.len() + 1
            &&& forall|i: int|
                0 <= i < m.closures.len() ==> #[trigger] a.closures[i] == m.closures[i]
            &&& made.function == m.chunks[id as usize]
            &&& made.upvalues.len() == list.len()
            &&& forall|i: int|
                0 <= i < list.len() ==> asked_for(m, a, #[trigger] list[i], made.upvalues[i])
            &&& captures_added(m, a)
            &&& same_heap(
                m,
                Machine { closures: m.closures, upvalues: m.upvalues, open: m.open, ..a },
            )
        },
{
    instructions_are_executed(m, OpCode::Closure(id), stop);
    let list = m.functions[m.chunks[id as usize] as int].upvalues@;
    let p = past(m);
    assert(m.frame_ok(m.frames[m.frames.len() - 1]));
    assert(p.valid());
    assert(can_capture(p, list));
    lists_are_captured(p, list, Seq::empty());
    let (c, us) = capture_all(p, list, Seq::empty()).unwrap();
    let a = dispatch(m, stop)->Next_0;
    if downwards(m) {
        order_is_kept(m, p);
        order_is_kept(c, a);
    }
    assert forall|i: int| 0 <= i < list.len() implies asked_for(
        m,
        a,
        #[trigger] list[i],
        us[i],
    ) by {
        assert(asked_for(p, c, list[i], us[i]));
    }
}

/// Where the list of open variables goes downwards, a slot has one captured variable: two
/// closures, and two entries of one list, that capture the same slot share it.
pub proof fn slots_have_one_variable(m: Machine, a: usize, b: usize)
    requires
        downwards(m),
        m.open.contains(a),
        m.open.contains(b),
        m.upvalues[a as int].location == m.upvalues[b as int].location,
    ensures
        a == b,
{
    let i = choose|i: int| 0 <= i < m.open.len() && m.open[i] == a;
    let j = choose|j: int| 0 <= j < m.open.len() && m.open[j] == b;
    if i < j {
        assert(slot_at(m, i) > slot_at(m, j));
    } else if j < i {
        assert(slot_at(m, j) > slot_at(m, i));
    }
}

// ---- Captured variables ----

/// The captured variable at a place of the running closure's own list.
pub open spec fn own_variable(m: Machine, slot: u8) -> usize {
    m.closures[inner(m).closure as int].upvalues[slot as int]
}

/// `GetUpvalue` pushes the value of the captured variable: the one it was closed with, or
/// that of its slot.
pub proof fn variables_are_read(m: Machine, stop: int, slot: u8)
    requires
        about_to(m, OpCode::GetUpvalue(slot)),
        slot < m.closures[inner(m).closure as int].upvalues.len(),
        0 <= m.top < 4096,
        m.stack.len() == 4096,
    ensures
        m.upvalues[own_variable(m, slot) as int].closed matches Some(v) ==> computes(
            m,
            dispatch(m, stop),
            0,
            seq![v],
        ),
        m.upvalues[own_variable(m, slot) as int].closed is None && m.upvalues[own_variable(
            m,
            slot,
        ) as int].location < 4096 ==> computes(
            m,
            dispatch(m, stop),
            0,
            seq![m.stack[m.upvalues[own_variable(m, slot) as int].location as int]],
        ),
{
    instructions_are_executed(m, OpCode::GetUpvalue(slot), stop);
}

/// `SetUpvalue` closes the captured variable with the value that lies `slot` below the
/// topmost one, which stays, and puts that value in the slot that the variable had. No
/// other slot and no other variable changes.
pub proof fn variables_are_set(m: Machine, stop: int, slot: u8)
    requires
        about_to(m, OpCode::SetUpvalue(slot)),
        slot < m.closures[inner(m).closure as int].upvalues.len(),
        own_variable(m, slot) < m.upvalues.len(),
        m.upvalues[own_variable(m, slot) as int].location < 4096,
        slot + 1 <= m.top <= 4096,
        m.stack.len() == 4096,
    ensures
        dispatch(m, stop) matches Flow::Next(a) && {
            let u = own_variable(m, slot) as int;
            let had = m.upvalues[u].location as int;
            &&& goes_to(m, a, inner(m).ip + 1)
            &&& a.top == m.top
            &&& a.stack.len() == m.stack.len()
            &&& a.stack[had] == nth(m, slot as int)
            &&& forall|i: int|
                0 <= i < m.stack.len() && i != had ==> #[trigger] a.stack[i] == m.stack[i]
            &&& a.upvalues.len() == m.upvalues.len()
            &&& a.upvalues[u].closed == Some(nth(m, slot as int))
            &&& a.upvalues[u].location == slot
            &&& forall|i: int|
                0 <= i < m.upvalues.len() && i != u ==> #[trigger] a.upvalues[i] == m.upvalues[i]
            &&& same_heap(m, Machine { upvalues: m.upvalues, ..a })
        },
{
    instructions_are_executed(m, OpCode::SetUpvalue(slot), stop);
}

/// What `SetUpvalue` stored, `GetUpvalue` of the same closure and place pushes.
pub proof fn set_variables_are_read(m: Machine, stop: int, slot: u8, set: Machine)
    requires
        about_to(m, OpCode::SetUpvalue(slot)),
        slot < m.closures[inner(m).closure as int].upvalues.len(),
        own_variable(m, slot) < m.upvalues.len(),
        m.upvalues[own_variable(m, slot) as int].location < 4096,
        slot + 1 <= m.top < 4096,
        m.stack.len() == 4096,
        dispatch(m, stop) == Flow::Next(set),
        about_to(set, OpCode::GetUpvalue(slot)),
    ensures
        computes(set, dispatch(set, stop), 0, seq![nth(m, slot as int)]),
{
    variables_are_set(m, stop, slot);
    variables_are_read(set, stop, slot);
}

// ---- Classes ----

/// `Class` pushes a new class of the name, without methods.
pub proof fn classes_are_made(m: Machine, stop: int, index: u8, name: usize)
    requires
        about_to(m, OpCode::Class(index)),
        has_constant(m, index, Value::String(name)),
        0 <= m.top < 4096,
        m.stack.len() == 4096,
    ensures
        dispatch(m, stop) matches Flow::Next(a) && {
            &&& goes_to(m, a, inner(m).ip + 1)
            &&& replaced(m, a, 0, seq![Value::Class(m.classes.len() as usize)])
            &&& a.classes == m.classes.push(ClassView { name, methods: Map::empty() })
            &&& same_heap(m, Machine { classes: m.classes, ..a })
        },
{
    instructions_are_executed(m, OpCode::Class(index), stop);
}

/// Whether one class has changed, and kept its name.
pub open spec fn class_changes(m: Machine, after: Machine, class: usize) -> bool {
    &&& after.classes.len() == m.classes.len()
    &&& forall|i: int|
        0 <= i < m.classes.len() && i != class ==> #[trigger] after.classes[i] == m.classes[i]
    &&& after.classes[class as int].name == m.classes[class as int].name
    &&& same_heap(m, Machine { classes: m.classes, ..after })
}

/// `Method` takes the topmost value off and gives it, under the name, to the class below,
/// which stays. Its other methods are as they were.
pub proof fn methods_are_defined(m: Machine, stop: int, index: u8, name: usize, class: usize)
    requires
        about_to(m, OpCode::Method(index)),
        has_constant(m, index, Value::String(name)),
        2 <= m.top <= m.stack.len(),
        nth(m, 1) == Value::Class(class),
        class < m.classes.len(),
    ensures
        dispatch(m, stop) matches Flow::Next(a) && {
            let before = m.classes[class as int].methods;
            let methods = a.classes[class as int].methods;
            &&& goes_to(m, a, inner(m).ip + 1)
            &&& replaced(m, a, 1, Seq::empty())
            &&& class_changes(m, a, class)
            &&& methods.contains_key(name) && methods[name] == nth(m, 0)
            &&& forall|other: usize|
                other != name ==> (#[trigger] methods.contains_key(other) <==> before.contains_key(
                    other,
                )) && (before.contains_key(other) ==> methods[other] == before[other])
        },
{
    instructions_are_executed(m, OpCode::Method(index), stop);
}

/// `Inherit` takes the subclass off, which has from then on all methods of the superclass
/// below, also in place of its own; methods of its own under other names stay.
pub proof fn methods_are_inherited(m: Machine, stop: int, superclass: usize, subclass: usize)
    requires
        about_to(m, OpCode::Inherit),
        2 <= m.top <= m.stack.len(),
        nth(m, 1) == Value::Class(superclass),
        nth(m, 0) == Value::Class(subclass),
        superclass != subclass,
        subclass < m.classes.len(),
    ensures
        dispatch(m, stop) matches Flow::Next(a) && {
            let own = m.classes[subclass as int].methods;
            let inherited = m.classes[superclass as int].methods;
            let methods = a.classes[subclass as int].methods;
            &&& goes_to(m, a, inner(m).ip + 1)
            &&& replaced(m, a, 1, Seq::empty())
            &&& class_changes(m, a, subclass)
            &&& forall|k: usize| #[trigger]
                methods.contains_key(k) <==> own.contains_key(k) || inherited.contains_key(k)
            &&& forall|k: usize| #[trigger]
                inherited.contains_key(k) ==> methods[k] == inherited[k]
            &&& forall|k: usize| #[trigger]
                own.contains_key(k) && !inherited.contains_key(k) ==> methods[k] == own[k]
        },
{
    instructions_are_executed(m, OpCode::Inherit, stop);
}

/// Only classes inherit, and only from classes.
pub proof fn classes_are_demanded(m: Machine, stop: int)
    requires
        about_to(m, OpCode::Inherit),
        tellable(m),
        2 <= m.top <= m.stack.len(),
    ensures
        !(nth(m, 1) is Class) ==> fails(m, dispatch(m, stop), 0, "Superclass must be a class."@),
        nth(m, 1) is Class && !(nth(m, 0) is Class) ==> (dispatch(m, stop) matches Flow::Fail(
            a,
            text,
        ) && text == "cannot convert to class"@ && goes_to(m, a, inner(m).ip + 1) && same_heap(
            m,
            a,
        ) && replaced(m, a, 0, Seq::empty())),
{
    let op = OpCode::Inherit;
    instructions_are_executed(m, op, stop);
    errors_are_reported(m, op, stop, "Superclass must be a class."@, m.top);
    assert(past(m) == Machine { top: m.top, ..past(m) });
}

// ---- Instances ----

/// `GetProperty` puts the value of a field in the place of the instance, whatever methods
/// its class has.
pub proof fn fields_are_read(m: Machine, stop: int, index: u8, name: usize, i: usize)
    requires
        about_to(m, OpCode::GetProperty(index)),
        has_constant(m, index, Value::String(name)),
        1 <= m.top <= m.stack.len(),
        nth(m, 0) == Value::Instance(i),
        m.instances[i as int].fields.contains_key(name),
    ensures
        computes(m, dispatch(m, stop), 1, seq![m.instances[i as int].fields[name]]),
{
    instructions_are_executed(m, OpCode::GetProperty(index), stop);
}

/// Whether a new bound method has taken the place of the `taken` topmost values, and
/// nothing else has changed.
pub open spec fn binds(m: Machine, flow: Flow, taken: int, receiver: Value, method: usize) -> bool {
    flow matches Flow::Next(a) && goes_to(m, a, inner(m).ip + 1) && replaced(
        m,
        a,
        taken,
        seq![Value::BoundMethod(m.bound_methods.len() as usize)],
    ) && a.bound_methods == m.bound_methods.push(BoundMethod { receiver, method }) && same_heap(
        m,
        Machine { bound_methods: m.bound_methods, ..a },
    )
}

/// `GetProperty` puts a method of its class, bound to the instance, in the place of an
/// instance without a field of the name.
pub proof fn methods_are_bound(
    m: Machine,
    stop: int,
    index: u8,
    name: usize,
    i: usize,
    method: usize,
)
    requires
        about_to(m, OpCode::GetProperty(index)),
        has_constant(m, index, Value::String(name)),
        1 <= m.top <= m.stack.len(),
        nth(m, 0) == Value::Instance(i),
        !m.instances[i as int].fields.contains_key(name),
        m.classes[m.instances[i as int].class as int].methods.contains_key(name),
        m.classes[m.instances[i as int].class as int].methods[name] == Value::Closure(method),
    ensures
        binds(m, dispatch(m, stop), 1, Value::Instance(i), method),
{
    instructions_are_executed(m, OpCode::GetProperty(index), stop);
}

/// `GetSuper` takes a class off and puts a method of it, bound to the value below, in the
/// place of that value.
pub proof fn super_methods_are_bound(
    m: Machine,
    stop: int,
    index: u8,
    name: usize,
    class: usize,
    method: usize,
)
    requires
        about_to(m, OpCode::GetSuper(index)),
        has_constant(m, index, Value::String(name)),
        2 <= m.top <= m.stack.len(),
        nth(m, 0) == Value::Class(class),
        m.classes[class as int].methods.contains_key(name),
        m.classes[class as int].methods[name] == Value::Closure(method),
    ensures
        binds(m, dispatch(m, stop), 2, nth(m, 1), method),
{
    instructions_are_executed(m, OpCode::GetSuper(index), stop);
}

/// A property that is neither a field nor a method cannot be read, and values other than
/// instances have none.
pub proof fn properties_are_demanded(m: Machine, stop: int, index: u8, name: usize)
    requires
        about_to(m, OpCode::GetProperty(index)),
        tellable(m),
        has_constant(m, index, Value::String(name)),
        1 <= m.top <= m.stack.len(),
    ensures
        !(nth(m, 0) is Instance) ==> fails(
            m,
            dispatch(m, stop),
            0,
            "Only instances have properties."@,
        ),
        nth(m, 0) matches Value::Instance(i) ==> (!m.instances[i as int].fields.contains_key(name)
            && !m.classes[m.instances[i as int].class as int].methods.contains_key(name) ==> fails(
            m,
            dispatch(m, stop),
            0,
            "Undefined property '"@ + shown(m.strings[name as int]) + "'."@,
        )),
{
    let op = OpCode::GetProperty(index);
    let missing = "Undefined property '"@ + shown(m.strings[name as int]) + "'."@;
    instructions_are_executed(m, op, stop);
    errors_are_reported(m, op, stop, missing, m.top);
    errors_are_reported(m, op, stop, "Only instances have properties."@, m.top);
    assert(past(m) == Machine { top: m.top, ..past(m) });
}

/// A method that a superclass lacks cannot be read.
pub proof fn super_methods_are_demanded(m: Machine, stop: int, index: u8, name: usize, class: usize)
    requires
        about_to(m, OpCode::GetSuper(index)),
        tellable(m),
        has_constant(m, index, Value::String(name)),
        1 <= m.top <= m.stack.len(),
        nth(m, 0) == Value::Class(class),
        !m.classes[class as int].methods.contains_key(name),
    ensures
        fails(
            m,
            dispatch(m, stop),
            1,
            "Undefined property '"@ + shown(m.strings[name as int]) + "'."@,
        ),
{
    let op = OpCode::GetSuper(index);
    let missing = "Undefined property '"@ + shown(m.strings[name as int]) + "'."@;
    instructions_are_executed(m, op, stop);
    errors_are_reported(m, op, stop, missing, m.top - 1);
    assert(past(m).dropped(1) == Machine { top: m.top - 1, ..past(m) });
}

/// `SetProperty` gives the instance below the topmost value that value under the name, and
/// leaves the value in the place of both. No other field and no other instance changes.
pub proof fn fields_are_set(m: Machine, stop: int, index: u8, name: usize, i: usize)
    requires
        about_to(m, OpCode::SetProperty(index)),
        has_constant(m, index, Value::String(name)),
        2 <= m.top <= m.stack.len(),
        nth(m, 1) == Value::Instance(i),
        i < m.instances.len(),
    ensures
        dispatch(m, stop) matches Flow::Next(a) && {
            let before = m.instances[i as int].fields;
            let fields = a.instances[i as int].fields;
            &&& goes_to(m, a, inner(m).ip + 1)
            &&& replaced(m, a, 2, seq![nth(m, 0)])
            &&& a.instances.len() == m.instances.len()
            &&& forall|j: int|
                0 <= j < m.instances.len() && j != i ==> #[trigger] a.instances[j]
                    == m.instances[j]
            &&& a.instances[i as int].class == m.instances[i as int].class
            &&& fields.contains_key(name) && fields[name] == nth(m, 0)
            &&& forall|other: usize|
                other != name ==> (#[trigger] fields.contains_key(other) <==> before.contains_key(
                    other,
                )) && (before.contains_key(other) ==> fields[other] == before[other])
            &&& same_heap(m, Machine { instances: m.instances, ..a })
        },
{
    instructions_are_executed(m, OpCode::SetProperty(index), stop);
}

/// Only instances have fields.
pub proof fn instance_is_demanded(m: Machine, stop: int, index: u8)
    requires
        about_to(m, OpCode::SetProperty(index)),
        tellable(m),
        2 <= m.top <= m.stack.len(),
        !(nth(m, 1) is Instance),
    ensures
        fails(m, dispatch(m, stop), 0, "Only instances have fields."@),
{
    let op = OpCode::SetProperty(index);
    instructions_are_executed(m, op, stop);
    errors_are_reported(m, op, stop, "Only instances have fields."@, m.top);
    assert(past(m) == Machine { top: m.top, ..past(m) });
}

// ---- Strings ----

/// `Add` on two strings that are UTF-8 puts a string in the place of both that has the
/// bytes of the lower one and then those of the topmost one. Strings are only added, and
/// nothing else changes.
pub proof fn strings_are_added(m: Machine, stop: int, a: usize, b: usize)
    requires
        m.valid(),
        about_to(m, OpCode::Add),
        2 <= m.top,
        nth(m, 1) == Value::String(a),
        nth(m, 0) == Value::String(b),
        valid_utf8(m.strings[a as int]),
        valid_utf8(m.strings[b as int]),
        m.strings.len() < usize::MAX,
    ensures
        dispatch(m, stop) matches Flow::Next(after) && {
            &&& goes_to(m, after, inner(m).ip + 1)
            &&& replaced(m, after, 2, seq![nth(after, 0)])
            &&& nth(after, 0) matches Value::String(p) && after.strings[p as int]
                == m.strings[a as int] + m.strings[b as int]
            &&& m.strings.is_prefix_of(after.strings)
            &&& after.strings.len() <= m.strings.len() + 1
            &&& same_heap(m, Machine { strings: m.strings, ..after })
        },
{
    instructions_are_executed(m, OpCode::Add, stop);
    assert(m.frame_ok(m.frames[m.frames.len() - 1]));
    assert(past(m).valid());
    strings_are_joined(past(m), a, b);
}

/// `Add` on any two strings shows them as text and joins the texts.
pub proof fn texts_are_added(m: Machine, stop: int, a: usize, b: usize)
    requires
        m.valid(),
        about_to(m, OpCode::Add),
        2 <= m.top,
        nth(m, 1) == Value::String(a),
        nth(m, 0) == Value::String(b),
        m.strings.len() < usize::MAX,
    ensures
        dispatch(m, stop) matches Flow::Next(after) && {
            &&& goes_to(m, after, inner(m).ip + 1)
            &&& replaced(m, after, 2, seq![nth(after, 0)])
            &&& nth(after, 0) matches Value::String(p) && decode_utf8(after.strings[p as int])
                == shown(m.strings[a as int]) + shown(m.strings[b as int])
            &&& m.strings.is_prefix_of(after.strings)
            &&& after.strings.len() <= m.strings.len() + 1
            &&& same_heap(m, Machine { strings: m.strings, ..after })
        },
{
    instructions_are_executed(m, OpCode::Add, stop);
    let text = shown(m.strings[a as int]) + shown(m.strings[b as int]);
    interning(m.strings, encode_utf8(text));
    encode_utf8_decode_utf8(text);
}

// ---- Names ----

/// Whether the instruction takes the name of a variable from the constant.
pub open spec fn names_variable(op: OpCode, index: u8) -> bool {
    op == OpCode::DefineGlobal(index) || op == OpCode::GetGlobal(index) || op == OpCode::SetGlobal(
        index,
    )
}

/// Only a string names a variable. Here no places are told.
pub proof fn names_are_demanded(m: Machine, op: OpCode, stop: int, index: u8, v: Value)
    requires
        names_variable(op, index),
        about_to(m, op),
        has_constant(m, index, v),
        !(v is String),
    ensures
        dispatch(m, stop) matches Flow::Fail(a, text) && text == "cannot convert to string"@
            && goes_to(m, a, inner(m).ip + 1) && same_heap(m, a) && replaced(
            m,
            a,
            0,
            Seq::empty(),
        ),
{
    instructions_are_executed(m, op, stop);
}

} // verus!
