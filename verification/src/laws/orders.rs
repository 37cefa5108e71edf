//! The order in which variables are given makes no difference.

use serde_json::Value as SerdeValue;
use vstd::prelude::*;
use vstd::string::*;
use vstd::utf8::*;

use crate::inject::{distinct_names, enumerates, json_scalars, with_variables, JsonView};
use crate::laws::growth::begins;
use crate::laws::injection::{
    giving_keeps_validity, means, other_variables_stay, variable, variables_are_given,
};
use crate::machine::Machine;
use crate::value::Value;

verus! {

/// Whether values of two machines are alike: strings by their bytes, all else by
/// identity.
pub open spec fn alike(a: Machine, v: Value, b: Machine, w: Value) -> bool {
    match (v, w) {
        (Value::String(p), Value::String(q)) => p < a.strings.len() && q < b.strings.len()
            && a.strings[p as int] == b.strings[q as int],
        _ => v == w,
    }
}

/// Whether two machines have the same global variables, by name and value.
pub open spec fn same_variables(a: Machine, b: Machine) -> bool {
    forall|name: Seq<u8>|
        match (#[trigger] variable(a, name), variable(b, name)) {
            (Some(v), Some(w)) => alike(a, v, b, w),
            (None, None) => true,
            _ => false,
        }
}

/// Whether an item stands in the list.
pub open spec fn lists(list: Seq<(Seq<u8>, JsonView)>, item: (Seq<u8>, JsonView)) -> bool {
    exists|i: int| 0 <= i < list.len() && #[trigger] list[i] == item
}

/// Whether two lists hold the same items.
pub open spec fn same_items(
    a: Seq<(Seq<u8>, JsonView)>,
    b: Seq<(Seq<u8>, JsonView)>,
) -> bool {
    forall|item: (Seq<u8>, JsonView)| #[trigger] lists(a, item) <==> lists(b, item)
}

/// Whether programs are given a value under the name.
spec fn names(list: Seq<(Seq<u8>, JsonView)>, name: Seq<u8>) -> bool {
    exists|i: int|
        0 <= i < list.len() && (#[trigger] list[i]).0 == name && !(list[i].1 is Compound)
}

/// Two values that mean the same are alike.
proof fn meanings_are_alike(a: Machine, v: Value, b: Machine, w: Value, j: JsonView)
    requires
        means(a, v, j),
        means(b, w, j),
    ensures
        alike(a, v, b, w),
{
}

/// A variable that neither of two machines was given is alike in both.
proof fn kept_variables_are_alike(m: Machine, a: Machine, b: Machine, name: Seq<u8>)
    requires
        m.valid(),
        begins(m.strings, a.strings),
        begins(m.strings, b.strings),
        variable(m, name) is Some,
    ensures
        alike(a, variable(m, name).unwrap(), b, variable(m, name).unwrap()),
{
    assert(m.globals.contains_key(m.place_of(name)));
    let v = variable(m, name).unwrap();
    assert(m.value_ok(v));
}

/// What programs are given does not depend on the order in which they are given it.
pub proof fn order_makes_no_difference(
    m: Machine,
    one: Seq<(Seq<u8>, JsonView)>,
    other: Seq<(Seq<u8>, JsonView)>,
)
    requires
        m.valid(),
        distinct_names(one),
        distinct_names(other),
        same_items(one, other),
        with_variables(m, one).strings.len() <= usize::MAX,
        with_variables(m, other).strings.len() <= usize::MAX,
    ensures
        same_variables(with_variables(m, one), with_variables(m, other)),
{
    let a = with_variables(m, one);
    let b = with_variables(m, other);
    giving_keeps_validity(m, one);
    giving_keeps_validity(m, other);
    assert forall|name: Seq<u8>|
        match (#[trigger] variable(a, name), variable(b, name)) {
            (Some(v), Some(w)) => alike(a, v, b, w),
            (None, None) => true,
            _ => false,
        } by {
        if names(one, name) {
            let i = choose|i: int|
                0 <= i < one.len() && (#[trigger] one[i]).0 == name && !(one[i].1 is Compound);
            assert(lists(one, one[i]));
            assert(lists(other, one[i]));
            let j = choose|j: int| 0 <= j < other.len() && #[trigger] other[j] == one[i];
            variables_are_given(m, one, i);
            variables_are_given(m, other, j);
            meanings_are_alike(
                a,
                variable(a, name).unwrap(),
                b,
                variable(b, name).unwrap(),
                one[i].1,
            );
        } else {
            assert forall|j: int| 0 <= j < other.len() implies (#[trigger] other[j]).0 != name
                || other[j].1 is Compound by {
                assert(lists(other, other[j]));
                assert(lists(one, other[j]));
                let i = choose|i: int| 0 <= i < one.len() && #[trigger] one[i] == other[j];
            }
            other_variables_stay(m, one, name);
            other_variables_stay(m, other, name);
            if variable(m, name) is Some {
                kept_variables_are_alike(m, a, b, name);
            }
        }
    }
}

/// To give programs one list and then another is to give them both in a row.
pub proof fn givings_add_up(
    m: Machine,
    first: Seq<(Seq<u8>, JsonView)>,
    second: Seq<(Seq<u8>, JsonView)>,
)
    ensures
        with_variables(with_variables(m, first), second) == with_variables(m, first + second),
    decreases second.len(),
{
    if second.len() == 0 {
        assert(first + second =~= first);
    } else {
        givings_add_up(m, first, second.drop_last());
        assert((first + second).drop_last() =~= first + second.drop_last());
        assert((first + second).last() == second.last());
    }
}

/// Whether no name stands in both lists.
pub open spec fn disjoint_names(
    first: Seq<(Seq<u8>, JsonView)>,
    second: Seq<(Seq<u8>, JsonView)>,
) -> bool {
    forall|i: int, j: int|
        0 <= i < first.len() && 0 <= j < second.len() ==> (#[trigger] first[i]).0 != (
        #[trigger] second[j]).0
}

/// Two lists of distinct names without a name in common are one such list.
proof fn disjoint_lists_join(
    first: Seq<(Seq<u8>, JsonView)>,
    second: Seq<(Seq<u8>, JsonView)>,
)
    requires
        distinct_names(first),
        distinct_names(second),
        disjoint_names(first, second),
    ensures
        distinct_names(first + second),
        distinct_names(second + first),
        same_items(first + second, second + first),
{
    let ab = first + second;
    let ba = second + first;
    assert forall|i: int, j: int| 0 <= i < j < ab.len() implies (#[trigger] ab[i]).0 != (
    #[trigger] ab[j]).0 by {
        if j < first.len() {
            assert(first[i].0 != first[j].0);
        } else if i >= first.len() {
            assert(second[i - first.len()].0 != second[j - first.len()].0);
        } else {
            assert(first[i].0 != second[j - first.len()].0);
        }
    }
    assert forall|i: int, j: int| 0 <= i < j < ba.len() implies (#[trigger] ba[i]).0 != (
    #[trigger] ba[j]).0 by {
        if j < second.len() {
            assert(second[i].0 != second[j].0);
        } else if i >= second.len() {
            assert(first[i - second.len()].0 != first[j - second.len()].0);
        } else {
            assert(first[j - second.len()].0 != second[i].0);
        }
    }
    assert forall|item: (Seq<u8>, JsonView)| #[trigger] lists(ab, item) <==> lists(ba, item) by {
        joined_lists(first, second, item);
        joined_lists(second, first, item);
    }
}

/// What stands in two lists in a row stands in one of them.
proof fn joined_lists(
    first: Seq<(Seq<u8>, JsonView)>,
    second: Seq<(Seq<u8>, JsonView)>,
    item: (Seq<u8>, JsonView),
)
    ensures
        lists(first + second, item) <==> lists(first, item) || lists(second, item),
{
    let joined = first + second;
    if lists(joined, item) {
        let i = choose|i: int| 0 <= i < joined.len() && #[trigger] joined[i] == item;
        if i < first.len() {
            assert(first[i] == item);
        } else {
            assert(second[i - first.len()] == item);
        }
    }
    if lists(first, item) {
        let i = choose|i: int| 0 <= i < first.len() && #[trigger] first[i] == item;
        assert(joined[i] == item);
    }
    if lists(second, item) {
        let i = choose|i: int| 0 <= i < second.len() && #[trigger] second[i] == item;
        assert(joined[first.len() + i] == item);
    }
}

/// Two lists without a name in common can be given in either order.
pub proof fn disjoint_givings_commute(
    m: Machine,
    first: Seq<(Seq<u8>, JsonView)>,
    second: Seq<(Seq<u8>, JsonView)>,
)
    requires
        m.valid(),
        distinct_names(first),
        distinct_names(second),
        disjoint_names(first, second),
        with_variables(with_variables(m, first), second).strings.len() <= usize::MAX,
        with_variables(with_variables(m, second), first).strings.len() <= usize::MAX,
    ensures
        same_variables(
            with_variables(with_variables(m, first), second),
            with_variables(with_variables(m, second), first),
        ),
{
    givings_add_up(m, first, second);
    givings_add_up(m, second, first);
    disjoint_lists_join(first, second);
    order_makes_no_difference(m, first + second, second + first);
}

/// To give programs once more what they were given, in whatever order, changes nothing.
pub proof fn repeated_givings_change_nothing(
    m: Machine,
    list: Seq<(Seq<u8>, JsonView)>,
    again: Seq<(Seq<u8>, JsonView)>,
)
    requires
        m.valid(),
        distinct_names(list),
        distinct_names(again),
        same_items(list, again),
        with_variables(with_variables(m, list), again).strings.len() <= usize::MAX,
        with_variables(m, list).strings.len() <= usize::MAX,
    ensures
        same_variables(with_variables(m, list), with_variables(with_variables(m, list), again)),
{
    let a = with_variables(m, list);
    let b = with_variables(a, again);
    giving_keeps_validity(m, list);
    giving_keeps_validity(a, again);
    assert forall|name: Seq<u8>|
        match (#[trigger] variable(a, name), variable(b, name)) {
            (Some(v), Some(w)) => alike(a, v, b, w),
            (None, None) => true,
            _ => false,
        } by {
        if names(again, name) {
            let j = choose|j: int|
                0 <= j < again.len() && (#[trigger] again[j]).0 == name && !(
                again[j].1 is Compound);
            assert(lists(again, again[j]));
            assert(lists(list, again[j]));
            let i = choose|i: int| 0 <= i < list.len() && #[trigger] list[i] == again[j];
            variables_are_given(m, list, i);
            variables_are_given(a, again, j);
            meanings_are_alike(
                a,
                variable(a, name).unwrap(),
                b,
                variable(b, name).unwrap(),
                again[j].1,
            );
        } else {
            other_variables_stay(a, again, name);
            if variable(a, name) is Some {
                kept_variables_are_alike(a, a, b, name);
            }
        }
    }
}

/// Two ways of walking one map give the same items.
proof fn walks_give_same_items(
    map: Map<String, SerdeValue>,
    one: Seq<(String, SerdeValue)>,
    other: Seq<(String, SerdeValue)>,
)
    requires
        enumerates(one, map),
        enumerates(other, map),
    ensures
        same_items(json_scalars(one), json_scalars(other)),
{
    assert forall|item: (Seq<u8>, JsonView)| #[trigger]
        lists(json_scalars(one), item) <==> lists(json_scalars(other), item) by {
        if lists(json_scalars(one), item) {
            walk_is_walked(map, one, other, item);
        }
        if lists(json_scalars(other), item) {
            walk_is_walked(map, other, one, item);
        }
    }
}

/// What one way of walking a map gives, another gives too.
proof fn walk_is_walked(
    map: Map<String, SerdeValue>,
    one: Seq<(String, SerdeValue)>,
    other: Seq<(String, SerdeValue)>,
    item: (Seq<u8>, JsonView),
)
    requires
        enumerates(one, map),
        enumerates(other, map),
        lists(json_scalars(one), item),
    ensures
        lists(json_scalars(other), item),
{
    let i = choose|i: int|
        0 <= i < json_scalars(one).len() && #[trigger] json_scalars(one)[i] == item;
    let key = one[i].0;
    assert(map.contains_key(key) && map[key] == one[i].1);
    let j = choose|j: int| 0 <= j < other.len() && (#[trigger] other[j]).0 == key;
    assert(map[other[j].0] == other[j].1);
    assert(json_scalars(other)[j] == item);
}

/// What a map of variables gives programs does not depend on the order in which it is
/// walked, and to give it once more changes nothing.
pub proof fn walks_make_no_difference(
    m: Machine,
    map: Map<String, SerdeValue>,
    one: Seq<(String, SerdeValue)>,
    other: Seq<(String, SerdeValue)>,
)
    requires
        m.valid(),
        enumerates(one, map),
        enumerates(other, map),
        distinct_names(json_scalars(one)),
        distinct_names(json_scalars(other)),
        with_variables(m, json_scalars(one)).strings.len() <= usize::MAX,
        with_variables(m, json_scalars(other)).strings.len() <= usize::MAX,
        with_variables(with_variables(m, json_scalars(one)), json_scalars(other)).strings.len()
            <= usize::MAX,
    ensures
        same_variables(
            with_variables(m, json_scalars(one)),
            with_variables(m, json_scalars(other)),
        ),
        same_variables(
            with_variables(m, json_scalars(one)),
            with_variables(with_variables(m, json_scalars(one)), json_scalars(other)),
        ),
{
    walks_give_same_items(map, one, other);
    order_makes_no_difference(m, json_scalars(one), json_scalars(other));
    repeated_givings_change_nothing(m, json_scalars(one), json_scalars(other));
}

/// Whether no key of the one map has the text of a key of the other.
pub open spec fn disjoint_keys(
    first: Map<String, SerdeValue>,
    second: Map<String, SerdeValue>,
) -> bool {
    forall|k: String, l: String| #[trigger]
        first.contains_key(k) && #[trigger] second.contains_key(l) ==> k@ != l@
}

/// Lists that walk two maps without a key in common have no name in common.
proof fn walks_are_disjoint(
    first: Map<String, SerdeValue>,
    second: Map<String, SerdeValue>,
    one: Seq<(String, SerdeValue)>,
    two: Seq<(String, SerdeValue)>,
)
    requires
        disjoint_keys(first, second),
        enumerates(one, first),
        enumerates(two, second),
    ensures
        disjoint_names(json_scalars(one), json_scalars(two)),
{
    assert forall|i: int, j: int|
        0 <= i < json_scalars(one).len() && 0 <= j < json_scalars(two).len() implies (
    #[trigger] json_scalars(one)[i]).0 != (#[trigger] json_scalars(two)[j]).0 by {
        assert(first.contains_key(one[i].0));
        assert(second.contains_key(two[j].0));
        encode_utf8_decode_utf8(one[i].0@);
        encode_utf8_decode_utf8(two[j].0@);
    }
}

/// Two maps of variables without a key in common can be given in either order, and give
/// what their union gives, whatever the orders in which the maps are walked.
pub proof fn disjoint_maps_commute(
    m: Machine,
    first: Map<String, SerdeValue>,
    second: Map<String, SerdeValue>,
    one: Seq<(String, SerdeValue)>,
    two: Seq<(String, SerdeValue)>,
    both: Seq<(String, SerdeValue)>,
)
    requires
        m.valid(),
        disjoint_keys(first, second),
        enumerates(one, first),
        enumerates(two, second),
        enumerates(both, first.union_prefer_right(second)),
        distinct_names(json_scalars(one)),
        distinct_names(json_scalars(two)),
        distinct_names(json_scalars(both)),
        with_variables(with_variables(m, json_scalars(one)), json_scalars(two)).strings.len()
            <= usize::MAX,
        with_variables(with_variables(m, json_scalars(two)), json_scalars(one)).strings.len()
            <= usize::MAX,
        with_variables(m, json_scalars(both)).strings.len() <= usize::MAX,
    ensures
        same_variables(
            with_variables(with_variables(m, json_scalars(one)), json_scalars(two)),
            with_variables(with_variables(m, json_scalars(two)), json_scalars(one)),
        ),
        same_variables(
            with_variables(with_variables(m, json_scalars(one)), json_scalars(two)),
            with_variables(m, json_scalars(both)),
        ),
{
    let a = json_scalars(one);
    let b = json_scalars(two);
    walks_are_disjoint(first, second, one, two);
    disjoint_givings_commute(m, a, b);
    disjoint_lists_join(a, b);
    givings_add_up(m, a, b);
    let union = first.union_prefer_right(second);
    let joined = one + two;
    assert(json_scalars(joined) =~= a + b);
    assert(enumerates(joined, union)) by {
        assert forall|i: int| 0 <= i < joined.len() implies union.contains_key(
            (#[trigger] joined[i]).0,
        ) && union[joined[i].0] == joined[i].1 by {
            if i < one.len() {
                assert(joined[i] == one[i]);
                assert(first.contains_key(one[i].0));
                if second.contains_key(one[i].0) {
                    assert(one[i].0@ != one[i].0@);
                }
            } else {
                assert(joined[i] == two[i - one.len()]);
            }
        }
        assert forall|k: String| #[trigger] union.contains_key(k) implies exists|i: int|
            0 <= i < joined.len() && (#[trigger] joined[i]).0 == k by {
            if second.contains_key(k) {
                let j = choose|j: int| 0 <= j < two.len() && (#[trigger] two[j]).0 == k;
                assert(joined[one.len() + j].0 == k);
            } else {
                let j = choose|j: int| 0 <= j < one.len() && (#[trigger] one[j]).0 == k;
                assert(joined[j].0 == k);
            }
        }
        assert forall|i: int, j: int| 0 <= i < j < joined.len() implies (#[trigger] joined[i]).0
            != (#[trigger] joined[j]).0 by {
            assert((a + b)[i].0 != (a + b)[j].0);
        }
    }
    walks_give_same_items(union, joined, both);
    order_makes_no_difference(m, a + b, json_scalars(both));
}

} // verus!
