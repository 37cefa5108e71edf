//! A budget of instructions.

use vstd::prelude::*;

verus! {

/// Counts down the instructions that may still run.
pub struct Fuel {
    remaining: i32,
}

impl Fuel {
    /// What is left of the budget.
    pub closed spec fn left(&self) -> int {
        self.remaining as int
    }

    /// A budget of the given size.
    pub fn new(fuel: i32) -> (r: Fuel)
        ensures
            r.left() == fuel,
    {
        Fuel { remaining: fuel }
    }

    /// Takes the amount from the budget; the count stops at the limits of its type.
    pub fn consume(&mut self, fuel: i32)
        ensures
            final(self).left() == if old(self).left() - fuel > i32::MAX {
                i32::MAX as int
            } else if old(self).left() - fuel < i32::MIN {
                i32::MIN as int
            } else {
                old(self).left() - fuel
            },
    {
        let left: i64 = self.remaining as i64 - fuel as i64;
        if left > i32::MAX as i64 {
            self.remaining = i32::MAX;
        } else if left < i32::MIN as i64 {
            self.remaining = i32::MIN;
        } else {
            self.remaining = left as i32;
        }
    }

    /// Whether anything is left.
    pub fn should_continue(&self) -> (r: bool)
        ensures
            r == (self.left() > 0),
    {
        self.remaining > 0
    }

    /// Every budget lies within the range of its counter.
    pub proof fn left_in_range(&self)
        ensures
            i32::MIN <= self.left() <= i32::MAX,
    {
    }
}

} // verus!
