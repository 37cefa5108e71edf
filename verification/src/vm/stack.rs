//! The value stack and the call frames.

use vstd::prelude::*;

use super::State;
use crate::machine::STACK_MAX_SIZE;
use crate::semantics::taken;
use crate::value::Value;

verus! {

impl State {
    /// The value in a slot.
    pub(super) fn stack_get(&self, index: usize) -> (r: Value)
        requires
            self.wf(),
            index < STACK_MAX_SIZE,
        ensures
            r == self@.stack[index as int],
            self@.value_ok(r),
    {
        self.stack[index]
    }

    /// Puts a value into a slot.
    pub(super) fn stack_set(&mut self, index: usize, value: Value)
        requires
            old(self).wf(),
            index < STACK_MAX_SIZE,
            old(self)@.value_ok(value),
        ensures
            final(self).wf(),
            final(self)@ == old(self)@.with_slot(index as int, value),
    {
        self.stack.set(index, value);
        assert(self@ =~= old(self)@.with_slot(index as int, value));
    }

    /// Puts a value on top of the stack.
    pub(super) fn push_stack(&mut self, value: Value)
        requires
            old(self).wf(),
            old(self)@.top < STACK_MAX_SIZE,
            old(self)@.value_ok(value),
        ensures
            final(self).wf(),
            final(self)@ == old(self)@.pushed(value),
    {
        self.stack_set(self.stack_top, value);
        self.stack_top = self.stack_top + 1;
        assert(self@ =~= old(self)@.pushed(value));
    }

    /// Takes the topmost value off the stack.
    pub(super) fn pop_stack(&mut self) -> (r: Value)
        requires
            old(self).wf(),
            old(self)@.top >= 1,
        ensures
            final(self).wf(),
            final(self)@ == old(self)@.dropped(1),
            r == old(self)@.peek(0),
            final(self)@.value_ok(r),
    {
        self.stack_top = self.stack_top - 1;
        assert(self@ =~= old(self)@.dropped(1));
        self.stack_get(self.stack_top)
    }

    /// The value that lies `distance` below the topmost one.
    pub(super) fn peek(&self, distance: usize) -> (r: Value)
        requires
            self.wf(),
            distance < self@.top,
        ensures
            r == self@.peek(distance as int),
            self@.value_ok(r),
    {
        self.stack_get(self.stack_top - 1 - distance)
    }

    /// Takes the `n` topmost values off the stack, or all where there are fewer.
    pub(super) fn pop_stack_n(&mut self, n: usize) -> (r: Vec<Value>)
        requires
            old(self).wf(),
        ensures
            final(self).wf(),
            r@ == taken(old(self)@, n as int),
            final(self)@ == old(self)@.dropped(r@.len() as int),
    {
        let count: usize = if n < self.stack_top {
            n
        } else {
            self.stack_top
        };
        let new_top: usize = self.stack_top - count;
        let mut result: Vec<Value> = Vec::with_capacity(count);
        let mut i: usize = new_top;
        while i < self.stack_top
            invariant
                self.wf(),
                *self == *old(self),
                new_top <= i <= self.stack_top,
                result@ == self.stack@.subrange(new_top as int, i as int),
            decreases self.stack_top - i,
        {
            result.push(self.stack_get(i));
            i = i + 1;
            assert(result@ =~= self.stack@.subrange(new_top as int, i as int));
        }
        self.stack_top = new_top;
        assert(result@ =~= taken(old(self)@, n as int));
        assert(self@ =~= old(self)@.dropped(result@.len() as int));
        result
    }
}

} // verus!
