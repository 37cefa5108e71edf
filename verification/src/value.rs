//! Values that the machine computes with.

use vstd::prelude::*;

use crate::number::{is_nan, number_eq, same_number};

verus! {

/// Functions that the host offers to programs.
#[derive(Clone, Copy, PartialEq, Eq, Structural, Debug)]
pub enum NativeFn {
    /// The time, as the host measures it.
    Clock,
}

/// A value. Strings and objects are named by their place in the machine's heap.
#[derive(Clone, Copy, Debug)]
pub enum Value {
    Nil,
    Boolean(bool),
    /// The bits of a 64-bit floating-point number.
    Number(u64),
    String(usize),
    Closure(usize),
    NativeFunction(NativeFn),
    Class(usize),
    Instance(usize),
    BoundMethod(usize),
    /// An agent, named by its place in the host's list of agents.
    Agent(usize),
}

impl Value {
    /// Nil and false count as false; every other value counts as true.
    pub open spec fn falsy(self) -> bool {
        self == Value::Nil || self == Value::Boolean(false)
    }

    /// Equality of the language: numbers compare as numbers, all else by identity.
    pub open spec fn same(self, other: Value) -> bool {
        match (self, other) {
            (Value::Number(a), Value::Number(b)) => same_number(a, b),
            _ => self == other,
        }
    }

    /// Whether the value counts as false in a condition.
    pub fn is_falsy(&self) -> (r: bool)
        ensures
            r == self.falsy(),
    {
        match self {
            Value::Nil => true,
            Value::Boolean(b) => !*b,
            _ => false,
        }
    }

    /// Whether two values are equal in the language.
    pub fn equals(&self, other: &Value) -> (r: bool)
        ensures
            r == self.same(*other),
    {
        match (*self, *other) {
            (Value::Nil, Value::Nil) => true,
            (Value::Boolean(a), Value::Boolean(b)) => a == b,
            (Value::Number(a), Value::Number(b)) => number_eq(a, b),
            (Value::String(a), Value::String(b)) => a == b,
            (Value::Closure(a), Value::Closure(b)) => a == b,
            (Value::NativeFunction(a), Value::NativeFunction(b)) => a == b,
            (Value::Class(a), Value::Class(b)) => a == b,
            (Value::Instance(a), Value::Instance(b)) => a == b,
            (Value::BoundMethod(a), Value::BoundMethod(b)) => a == b,
            (Value::Agent(a), Value::Agent(b)) => a == b,
            _ => false,
        }
    }
}

/// Equality of the language holds in both directions, and every value is equal to
/// itself but "not a number".
pub proof fn equality_is_symmetric(a: Value, b: Value)
    ensures
        a.same(b) == b.same(a),
        a.same(a) == !(a matches Value::Number(n) && is_nan(n)),
{
}

} // verus!
