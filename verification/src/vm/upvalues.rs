//! Captured variables.
//!
//! Those that still live on the stack form a linked list, searched from its head.

use vstd::prelude::*;

use super::{link, State};
use crate::laws::validity::capture_keeps_wf;
use crate::machine::STACK_MAX_SIZE;
use crate::object::{UpvalueObj, UpvalueView};
use crate::semantics::{capture, captured, close, close_head, is_captured, search};
use crate::value::Value;

verus! {

/// Linking a new node into a list at a place.
proof fn insert_keeps_links(
    list: Seq<usize>,
    nodes: Seq<UpvalueObj>,
    i: int,
    after: Seq<UpvalueObj>,
)
    requires
        list.no_duplicates(),
        0 <= i <= list.len(),
        nodes.len() <= usize::MAX,
        forall|j: int|
            0 <= j < list.len() ==> list[j] < nodes.len() && (#[trigger] nodes[list[j] as int]).next
                == link(list, j + 1),
        after.len() == nodes.len() + 1,
        after[nodes.len() as int].next == link(list, i),
        forall|p: int|
            0 <= p < nodes.len() ==> (#[trigger] after[p]).next == if i > 0 && p == list[i - 1] {
                Some(nodes.len() as usize)
            } else {
                nodes[p].next
            },
    ensures
        forall|j: int|
            0 <= j <= list.len() ==> list.insert(i, nodes.len() as usize)[j] < after.len() && (
            #[trigger] after[list.insert(i, nodes.len() as usize)[j] as int]).next == link(
                list.insert(i, nodes.len() as usize),
                j + 1,
            ),
{
    let new = list.insert(i, nodes.len() as usize);
    assert forall|j: int| 0 <= j <= list.len() implies new[j] < after.len() && (
    #[trigger] after[new[j] as int]).next == link(new, j + 1) by {
        if j < i {
            assert(new[j] == list[j]);
            if j + 1 < i {
                assert(list[j] != list[i - 1]);
                assert(new[j + 1] == list[j + 1]);
            }
        } else if j == i {
            if i < list.len() {
                assert(new[i + 1] == list[i]);
            }
        } else {
            assert(new[j] == list[j - 1]);
            if i > 0 {
                assert(list[j - 1] != list[i - 1]);
            }
            if j < list.len() {
                assert(new[j + 1] == list[j]);
            }
        }
    }
}

impl State {
    /// Whether the list goes on with a variable whose slot is above the given one.
    fn lies_above(&self, cursor: Option<usize>, slot: usize) -> (r: bool)
        requires
            self.wf(),
            cursor matches Some(u) ==> u < self@.upvalues.len(),
        ensures
            r == (cursor matches Some(u) && self@.upvalues[u as int].location > slot),
    {
        match cursor {
            Some(u) => self.upvalues[u].location > slot,
            None => false,
        }
    }

    /// The captured variable of a stack slot. It is shared by all closures that
    /// capture the slot while it is on the list.
    pub(super) fn capture_upvalue(&mut self, slot: usize) -> (r: usize)
        requires
            old(self).wf(),
        ensures
            final(self).wf(),
            final(self)@ == capture(old(self)@, slot),
            r == captured(old(self)@, slot),
            r < final(self)@.upvalues.len(),
    {
        let mut prev: Option<usize> = None;
        let mut cursor: Option<usize> = self.open_upvalues;
        let ghost mut i: int = 0;
        while self.lies_above(cursor, slot)
            invariant
                self.wf(),
                self@ == old(self)@,
                0 <= i <= self@.open.len(),
                cursor == link(self@.open, i),
                prev == if i == 0 {
                    None
                } else {
                    Some(self@.open[i - 1])
                },
                cursor matches Some(u) ==> u < self@.upvalues.len(),
                search(self@, slot as int, 0) == search(self@, slot as int, i),
            decreases self@.open.len() - i,
        {
            if let Some(u) = cursor {
                prev = Some(u);
                cursor = self.upvalues[u].next;
                proof {
                    assert(self@.open[i] == u);
                    if i + 1 < self@.open.len() {
                        assert(self@.open[i + 1] < self@.upvalues.len());
                    }
                    i = i + 1;
                }
            }
        }
        assert(i == search(self@, slot as int, 0));
        if let Some(u) = cursor {
            if self.upvalues[u].location == slot {
                return u;
            }
        }
        assert(!is_captured(self@, slot as int));
        let created: usize = self.upvalues.len();
        let ghost before = self.open_list@;
        let ghost nodes = self.upvalues@;
        self.upvalues.push(UpvalueObj { location: slot, closed: None, next: cursor });
        match prev {
            Some(p) => {
                assert(before[i - 1] == p);
                let mut node: UpvalueObj = self.upvalues[p];
                node.next = Some(created);
                self.upvalues.set(p, node);
            },
            None => {
                self.open_upvalues = Some(created);
            },
        }
        self.open_list = Ghost(before.insert(i, created));
        proof {
            capture_keeps_wf(old(self)@, slot);
            insert_keeps_links(before, nodes, i, self.upvalues@);
            assert(self@ =~= capture(old(self)@, slot));
        }
        created
    }

    /// Closes captured variables from the head of the list, up to the first one
    /// whose slot lies below `last`. Tells whether each had a slot to take its
    /// value from.
    pub(super) fn close_upvalues(&mut self, last: usize) -> (r: bool)
        requires
            old(self).wf(),
        ensures
            final(self).wf(),
            match close(old(self)@, last as int) {
                Some(m) => r && final(self)@ == m,
                None => !r,
            },
    {
        loop
            invariant
                self.wf(),
                close(self@, last as int) == close(old(self)@, last as int),
            decreases self@.open.len(),
        {
            let u: usize = match self.open_upvalues {
                Some(u) => u,
                None => {
                    return true;
                },
            };
            assert(self@.open[0] == u);
            let node: UpvalueObj = self.upvalues[u];
            if node.location < last {
                return true;
            }
            if node.location >= STACK_MAX_SIZE {
                return false;
            }
            let value: Value = self.stack_get(node.location);
            let ghost before = self@;
            let ghost list = self.open_list@;
            let ghost nodes = self.upvalues@;
            self.upvalues.set(
                u,
                UpvalueObj { location: node.location, closed: Some(value), next: node.next },
            );
            self.open_upvalues = node.next;
            self.open_list = Ghost(list.drop_first());
            proof {
                let rest = self.open_list@;
                assert(link(list, 1) == link(rest, 0));
                assert forall|j: int| 0 <= j < rest.len() implies rest[j] < self.upvalues@.len()
                    && (#[trigger] self.upvalues@[rest[j] as int]).next == link(rest, j + 1) by {
                    assert(rest[j] == list[j + 1]);
                    assert(list[j + 1] != list[0]);
                    assert(link(list, j + 2) == link(rest, j + 1));
                }
                assert(self@ =~= close_head(before));
            }
        }
    }

    /// Changes a captured variable.
    pub(super) fn set_upvalue(&mut self, place: usize, location: usize, value: Value)
        requires
            old(self).wf(),
            place < old(self)@.upvalues.len(),
            old(self)@.value_ok(value),
        ensures
            final(self).wf(),
            final(self)@ == old(self)@.with_upvalue(
                place as int,
                UpvalueView { location, closed: Some(value) },
            ),
    {
        let next: Option<usize> = self.upvalues[place].next;
        self.upvalues.set(place, UpvalueObj { location, closed: Some(value), next });
        assert(self@ =~= old(self)@.with_upvalue(
            place as int,
            UpvalueView { location, closed: Some(value) },
        ));
    }
}

} // verus!
