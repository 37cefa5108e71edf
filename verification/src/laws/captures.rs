//! Captured variables.

use vstd::prelude::*;

use crate::chunk::{OpCode, Upvalue};
use crate::laws::growth::{after, captures_only_add, instructions_are_plain};
use crate::laws::validity::capture_is_valid;
use crate::machine::{Machine, STACK_MAX_SIZE};
use crate::object::UpvalueView;
use crate::semantics::{
    capture, capture_all, captured, close, close_head, dispatch, is_captured, search,
};

verus! {

/// The slot of the captured variable at a place of the list.
pub open spec fn slot_at(m: Machine, i: int) -> int {
    m.upvalues[m.open[i] as int].location as int
}

/// Whether the list goes from the top of the stack downwards, each slot once.
pub open spec fn downwards(m: Machine) -> bool {
    forall|i: int, j: int|
        0 <= i < j < m.open.len() ==> #[trigger] slot_at(m, i) > #[trigger] slot_at(m, j)
}

/// The search passes over slots above the given one and stops at the first other.
proof fn search_stops(m: Machine, slot: int, i: int)
    requires
        0 <= i <= m.open.len(),
    ensures
        i <= search(m, slot, i) <= m.open.len(),
        forall|j: int| i <= j < search(m, slot, i) ==> #[trigger] slot_at(m, j) > slot,
        search(m, slot, i) < m.open.len() ==> slot_at(m, search(m, slot, i)) <= slot,
    decreases m.open.len() - i,
{
    if i < m.open.len() && slot_at(m, i) > slot {
        search_stops(m, slot, i + 1);
    }
}

/// Where slots above the given one come first and then another, the search stops there.
proof fn search_is(m: Machine, slot: int, i: int, k: int)
    requires
        0 <= i <= k < m.open.len(),
        forall|j: int| i <= j < k ==> #[trigger] slot_at(m, j) > slot,
        slot_at(m, k) <= slot,
    ensures
        search(m, slot, i) == k,
    decreases k - i,
{
    if i < k {
        assert(slot_at(m, i) > slot);
        search_is(m, slot, i + 1, k);
    }
}

/// What capturing a variable gives: a captured variable of that slot, which stands
/// in the list.
pub proof fn capture_finds_slot(m: Machine, slot: usize)
    requires
        m.valid(),
        m.upvalues.len() <= usize::MAX,
    ensures
        capture(m, slot).open.contains(captured(m, slot)),
        capture(m, slot).upvalues[captured(m, slot) as int].location == slot,
        is_captured(capture(m, slot), slot as int),
        captured(capture(m, slot), slot) == captured(m, slot),
        forall|i: int|
            0 <= i < m.upvalues.len() ==> #[trigger] capture(m, slot).upvalues[i]
                == m.upvalues[i],
{
    search_stops(m, slot as int, 0);
    let k = search(m, slot as int, 0);
    let a = capture(m, slot);
    if is_captured(m, slot as int) {
        assert(m.open[k] == captured(m, slot));
    } else {
        assert(a.open[k] == captured(m, slot));
        assert forall|j: int| 0 <= j < k implies #[trigger] slot_at(a, j) > slot by {
            assert(slot_at(m, j) > slot);
            assert(a.open[j] == m.open[j]);
        }
        search_is(a, slot as int, 0, k);
    }
}

/// A variable that is captured twice is captured once: the second time finds what
/// the first one made.
pub proof fn capture_twice(m: Machine, slot: usize)
    requires
        m.valid(),
        m.upvalues.len() <= usize::MAX,
    ensures
        capture(capture(m, slot), slot) == capture(m, slot),
        captured(capture(m, slot), slot) == captured(m, slot),
{
    capture_finds_slot(m, slot);
}

/// Whether a variable of the list lives in the slot.
pub open spec fn lists_slot(m: Machine, slot: int) -> bool {
    exists|i: int| 0 <= i < m.open.len() && #[trigger] slot_at(m, i) == slot
}

/// The slots of the list, once a variable is captured, are those that it had and the
/// slot of that variable.
pub proof fn capture_adds_slot(m: Machine, slot: usize, other: int)
    requires
        m.valid(),
        m.upvalues.len() <= usize::MAX,
    ensures
        lists_slot(capture(m, slot), other) <==> lists_slot(m, other) || other == slot,
{
    search_stops(m, slot as int, 0);
    let k = search(m, slot as int, 0);
    let a = capture(m, slot);
    if is_captured(m, slot as int) {
        assert(slot_at(m, k) == slot);
    } else {
        assert(a.open[k] == m.upvalues.len());
        assert(slot_at(a, k) == slot);
        if lists_slot(m, other) {
            let i = choose|i: int| 0 <= i < m.open.len() && #[trigger] slot_at(m, i) == other;
            let j = if i < k {
                i
            } else {
                i + 1
            };
            assert(a.open[j] == m.open[i]);
            assert(slot_at(a, j) == other);
        }
        if lists_slot(a, other) && other != slot {
            let j = choose|j: int| 0 <= j < a.open.len() && #[trigger] slot_at(a, j) == other;
            let i = if j < k {
                j
            } else {
                j - 1
            };
            assert(a.open[j] == m.open[i]);
            assert(slot_at(m, i) == other);
        }
    }
}

/// A variable that is captured stays the captured variable of its slot when another
/// one is captured.
pub proof fn captures_leave_captured(m: Machine, slot: usize, other: usize)
    requires
        m.valid(),
        m.upvalues.len() <= usize::MAX,
        is_captured(m, slot as int),
    ensures
        is_captured(capture(m, other), slot as int),
        captured(capture(m, other), slot) == captured(m, slot),
{
    let a = capture(m, other);
    if !is_captured(m, other as int) {
        search_stops(m, slot as int, 0);
        search_stops(m, other as int, 0);
        let k = search(m, slot as int, 0);
        let p = search(m, other as int, 0);
        assert(slot_at(m, k) == slot);
        if other > slot {
            if p > k {
                assert(slot_at(m, k) > other);
            }
            assert(a.open[k + 1] == m.open[k]);
            assert forall|j: int| 0 <= j < k + 1 implies #[trigger] slot_at(a, j) > slot by {
                if j < p {
                    assert(a.open[j] == m.open[j]);
                    assert(slot_at(m, j) > other);
                } else if j == p {
                    assert(a.open[j] == m.upvalues.len());
                } else {
                    assert(a.open[j] == m.open[j - 1]);
                    assert(slot_at(m, j - 1) > slot);
                }
            }
            search_is(a, slot as int, 0, k + 1);
        } else {
            if p <= k {
                if p < k {
                    assert(slot_at(m, p) > slot);
                }
                assert(slot_at(m, p) <= other);
                assert(other == slot);
            }
            assert(a.open[k] == m.open[k]);
            assert forall|j: int| 0 <= j < k implies #[trigger] slot_at(a, j) > slot by {
                assert(a.open[j] == m.open[j]);
                assert(slot_at(m, j) > slot);
            }
            search_is(a, slot as int, 0, k);
        }
    }
}

/// The machine once the variables of the slots are captured, one after the other.
pub open spec fn capture_slots(m: Machine, slots: Seq<usize>) -> Machine
    decreases slots.len(),
{
    if slots.len() == 0 {
        m
    } else {
        capture(capture_slots(m, slots.drop_last()), slots.last())
    }
}

/// Capturing variables leaves a valid machine valid, makes captured variables no fewer,
/// and leaves those that there were as they were.
proof fn captures_of_slots_add(m: Machine, slots: Seq<usize>)
    requires
        m.valid(),
        capture_slots(m, slots).upvalues.len() <= usize::MAX,
    ensures
        capture_slots(m, slots).valid(),
        m.upvalues.len() <= capture_slots(m, slots).upvalues.len(),
        slots.len() > 0 ==> capture_slots(m, slots.drop_last()).upvalues.len() <= usize::MAX,
        forall|i: int|
            0 <= i < m.upvalues.len() ==> #[trigger] capture_slots(m, slots).upvalues[i]
                == m.upvalues[i],
    decreases slots.len(),
{
    if slots.len() > 0 {
        let before = capture_slots(m, slots.drop_last());
        assert(before.upvalues.len() <= capture(before, slots.last()).upvalues.len());
        captures_of_slots_add(m, slots.drop_last());
        capture_is_valid(before, slots.last());
        capture_finds_slot(before, slots.last());
    }
}

/// A captured variable is shared: captured again, also after others, it is the one that
/// was made first, and the list stays as it was.
pub proof fn captures_are_shared(m: Machine, slot: usize, others: Seq<usize>)
    requires
        m.valid(),
        capture_slots(capture(m, slot), others).upvalues.len() <= usize::MAX,
    ensures
        captured(capture_slots(capture(m, slot), others), slot) == captured(m, slot),
        capture(capture_slots(capture(m, slot), others), slot) == capture_slots(
            capture(m, slot),
            others,
        ),
    decreases others.len(),
{
    let first = capture(m, slot);
    capture_is_valid(m, slot);
    captures_of_slots_add(first, others);
    capture_finds_slot(m, slot);
    if others.len() > 0 {
        let rest = others.drop_last();
        captures_of_slots_add(first, rest);
        captures_are_shared(m, slot, rest);
        let before = capture_slots(first, rest);
        captured_again_means_captured(before, slot);
        captures_leave_captured(before, slot, others.last());
    }
}

/// A variable whose capture changes nothing is captured already.
proof fn captured_again_means_captured(m: Machine, slot: usize)
    requires
        capture(m, slot) == m,
    ensures
        is_captured(m, slot as int),
{
    if !is_captured(m, slot as int) {
        assert(capture(m, slot).upvalues.len() == m.upvalues.len() + 1);
    }
}

/// Two slots have two captured variables.
pub proof fn slots_have_own_variables(m: Machine, slot: usize, others: Seq<usize>, other: usize)
    requires
        m.valid(),
        slot != other,
        capture_slots(capture(m, slot), others).upvalues.len() <= usize::MAX,
    ensures
        captured(capture_slots(capture(m, slot), others), other) != captured(m, slot),
{
    let first = capture(m, slot);
    let later = capture_slots(first, others);
    capture_is_valid(m, slot);
    captures_of_slots_add(first, others);
    capture_finds_slot(m, slot);
    capture_finds_slot(later, other);
    let u = captured(m, slot);
    assert(first.upvalues[u as int].location == slot);
    assert(later.upvalues[u as int] == first.upvalues[u as int]);
    assert(capture(later, other).upvalues[u as int] == later.upvalues[u as int]);
}

/// A variable that is captured is put where the order of the list wants it.
pub proof fn capture_keeps_order(m: Machine, slot: usize)
    requires
        m.valid(),
        m.upvalues.len() <= usize::MAX,
        downwards(m),
    ensures
        downwards(capture(m, slot)),
{
    if !is_captured(m, slot as int) {
        search_stops(m, slot as int, 0);
        let k = search(m, slot as int, 0);
        let a = capture(m, slot);
        assert forall|i: int, j: int| 0 <= i < j < a.open.len() implies #[trigger] slot_at(a, i)
            > #[trigger] slot_at(a, j) by {
            let before = |p: int|
                if p < k {
                    p
                } else {
                    p - 1
                };
            if i != k {
                assert(a.open[i] == m.open[before(i)]);
                assert(slot_at(a, i) == slot_at(m, before(i)));
            }
            if j != k {
                assert(a.open[j] == m.open[before(j)]);
                assert(slot_at(a, j) == slot_at(m, before(j)));
            }
            if i == k {
                assert(slot_at(m, k) <= slot);
                assert(slot_at(m, j - 1) < slot) by {
                    if j - 1 > k {
                        assert(slot_at(m, k) > slot_at(m, j - 1));
                    }
                }
            } else if j == k {
                assert(slot_at(m, i) > slot);
            }
        }
    }
}

/// What closing means for each captured variable, where the list goes from the top
/// downwards: those in slots from `last` on have left the list with the value of
/// their slot; the others are as they were.
pub proof fn closing_is_complete(m: Machine, last: int)
    requires
        m.wf(),
        downwards(m),
        close(m, last) is Some,
    ensures
        ({
            let a = close(m, last).unwrap();
            &&& downwards(a)
            &&& forall|p: usize| #[trigger]
                a.open.contains(p) <==> m.open.contains(p) && m.upvalues[p as int].location < last
            &&& forall|p: usize| #[trigger]
                m.open.contains(p) && m.upvalues[p as int].location >= last
                    ==> a.upvalues[p as int] == (UpvalueView {
                    closed: Some(m.stack[m.upvalues[p as int].location as int]),
                    ..m.upvalues[p as int]
                })
            &&& forall|i: int|
                0 <= i < m.upvalues.len() && !(i <= usize::MAX && m.open.contains(i as usize)
                    && m.upvalues[i].location >= last) ==> #[trigger] a.upvalues[i]
                    == m.upvalues[i]
            &&& a.upvalues.len() == m.upvalues.len()
        }),
    decreases m.open.len(),
{
    if m.open.len() > 0 {
        let head = m.open[0];
        let location = m.upvalues[head as int].location;
        if location < last {
            assert forall|p: usize| #[trigger]
                m.open.contains(p) implies m.upvalues[p as int].location < last by {
                let i = choose|i: int| 0 <= i < m.open.len() && m.open[i] == p;
                if i > 0 {
                    assert(slot_at(m, 0) > slot_at(m, i));
                }
            }
        } else {
            let b = close_head(m);
            assert forall|i: int, j: int| 0 <= i < j < b.open.len() implies #[trigger] slot_at(b, i)
                > #[trigger] slot_at(b, j) by {
                assert(slot_at(m, i + 1) > slot_at(m, j + 1));
            }
            assert(m.value_ok(m.stack[location as int]));
            assert(b.wf());
            closing_is_complete(b, last);
            assert forall|p: usize| #[trigger] m.open.contains(p) <==> p == head || b.open.contains(
                p,
            ) by {
                if m.open.contains(p) {
                    let i = choose|i: int| 0 <= i < m.open.len() && m.open[i] == p;
                    if i > 0 {
                        assert(b.open[i - 1] == p);
                    }
                }
                if b.open.contains(p) {
                    let i = choose|i: int| 0 <= i < b.open.len() && b.open[i] == p;
                    assert(m.open[i + 1] == p);
                }
            }
            assert(!b.open.contains(head));
        }
    }
}

/// To close captured variables from a slot on, and then from a lower one on, is to close
/// them from the lower one on.
pub proof fn closings_add_up(m: Machine, last: int, lower: int)
    requires
        lower <= last,
    ensures
        match close(m, last) {
            Some(closed) => close(closed, lower) == close(m, lower),
            None => close(m, lower) is None,
        },
    decreases m.open.len(),
{
    if m.open.len() > 0 && last <= slot_at(m, 0) < STACK_MAX_SIZE {
        closings_add_up(close_head(m), last, lower);
        assert(close(m, last) == close(close_head(m), last));
        assert(close(m, lower) == close(close_head(m), lower));
    }
}

/// To close captured variables from the lowest slot on leaves none on the list.
pub proof fn closing_all_empties_list(m: Machine)
    ensures
        close(m, 0) matches Some(closed) ==> closed.open.len() == 0,
    decreases m.open.len(),
{
    if m.open.len() > 0 && slot_at(m, 0) < STACK_MAX_SIZE {
        closing_all_empties_list(close_head(m));
    }
}

/// Captured variables are put where the order of the list wants them.
proof fn captures_keep_order(m: Machine, list: Seq<Upvalue>, done: Seq<usize>)
    requires
        m.valid(),
        downwards(m),
        capture_all(m, list, done) matches Some((a, _)) ==> a.upvalues.len() <= usize::MAX,
    ensures
        capture_all(m, list, done) matches Some((a, _)) ==> downwards(a),
    decreases list.len() - done.len(),
{
    if done.len() < list.len() {
        let item = list[done.len() as int];
        if item.is_local {
            let slot = m.frame().slot_start + item.index;
            if slot <= usize::MAX {
                let next = capture(m, slot as usize);
                let more = done.push(captured(m, slot as usize));
                captures_only_add(next, list, more);
                capture_is_valid(m, slot as usize);
                if capture_all(next, list, more) is Some {
                    capture_keeps_order(m, slot as usize);
                    captures_keep_order(next, list, more);
                }
            }
        } else {
            let outer = m.closures[m.frame().closure as int].upvalues;
            if item.index < outer.len() {
                captures_keep_order(m, list, done.push(outer[item.index as int]));
            }
        }
    }
}

/// Every instruction but `SetUpvalue` leaves the list going from the top of the
/// stack downwards. `SetUpvalue` gives the variable another slot and leaves it where
/// it stood. No machine holds captured variables beyond the size of the address space.
pub proof fn instructions_keep_order(m: Machine, stop: int)
    requires
        m.wf(),
        downwards(m),
        m.frames.len() > 0,
        m.frame().ip < m.running().code().len(),
        !(m.running().code()[m.frame().ip as int] is SetUpvalue),
        after(dispatch(m, stop)) matches Some(a) ==> a.upvalues.len() <= usize::MAX,
    ensures
        after(dispatch(m, stop)) matches Some(a) ==> downwards(a),
{
    let moved = m.with_ip(m.frame().ip + 1);
    let op = m.running().code()[m.frame().ip as int];
    assert(m.frame_ok(m.frames[m.frames.len() - 1]));
    assert(moved.valid());
    assert forall|i: int| #[trigger] slot_at(moved, i) == slot_at(m, i) by {}
    assert(downwards(moved));
    match op {
        OpCode::Return => {
            let popped = moved.dropped(1);
            if moved.top >= 1 {
                assert(popped.valid());
                assert(downwards(popped)) by {
                    assert forall|i: int| #[trigger] slot_at(popped, i) == slot_at(m, i) by {}
                }
                if close(popped, moved.frame().slot_start as int) is Some {
                    closing_is_complete(popped, moved.frame().slot_start as int);
                    same_order(
                        close(popped, moved.frame().slot_start as int).unwrap(),
                        after(dispatch(m, stop)),
                    );
                }
            }
        },
        OpCode::CloseUpvalue => {
            if moved.top >= 1 && close(moved, moved.top - 1) is Some {
                closing_is_complete(moved, moved.top - 1);
                same_order(close(moved, moved.top - 1).unwrap(), after(dispatch(m, stop)));
            }
        },
        OpCode::Closure(chunk_id) => {
            let function = moved.chunks[chunk_id as usize];
            let list = moved.functions[function as int].upvalues@;
            captures_only_add(moved, list, Seq::empty());
            if !(dispatch(m, stop) is Stuck) {
                captures_keep_order(moved, list, Seq::empty());
                same_order(
                    capture_all(moved, list, Seq::empty()).unwrap().0,
                    after(dispatch(m, stop)),
                );
            }
        },
        _ => {
            instructions_are_plain(moved, op, stop);
            same_order(moved, after(dispatch(m, stop)));
        },
    }
}

/// The order of the list depends on the list and the captured variables alone.
proof fn same_order(m: Machine, other: Option<Machine>)
    requires
        downwards(m),
        other matches Some(a) ==> a.open == m.open && a.upvalues == m.upvalues,
    ensures
        other matches Some(a) ==> downwards(a),
{
    match other {
        Some(a) => {
            assert forall|i: int, j: int| 0 <= i < j < a.open.len() implies #[trigger] slot_at(a, i)
                > #[trigger] slot_at(a, j) by {
                assert(slot_at(m, i) > slot_at(m, j));
            }
        },
        None => {},
    }
}

} // verus!
