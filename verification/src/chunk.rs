//! Compiled code.

use vstd::prelude::*;

use crate::value::Value;

verus! {

/// An instruction. A byte names a constant of the running function, a stack slot,
/// a captured variable or a number of arguments.
#[derive(Clone, Copy, Debug)]
pub enum OpCode {
    Constant(u8),
    Add,
    Subtract,
    Multiply,
    Divide,
    Negate,
    Return,
    Nil,
    True,
    False,
    Not,
    Equal,
    Greater,
    Less,
    Print,
    Pop,
    DefineGlobal(u8),
    GetGlobal(u8),
    SetGlobal(u8),
    GetLocal(u8),
    SetLocal(u8),
    JumpIfFalse(u16),
    Jump(u16),
    Loop(u16),
    Call(u8),
    Closure(u8),
    GetUpvalue(u8),
    SetUpvalue(u8),
    CloseUpvalue,
    Class(u8),
    GetProperty(u8),
    SetProperty(u8),
    Method(u8),
    Invoke(u8, u8),
    Inherit,
    GetSuper(u8),
    SuperInvoke(u8, u8),
    Prompt,
    Agent(u8),
}

/// How a closure finds a variable that it captures: a slot of the function that
/// creates it, or a variable which that function has itself captured.
#[derive(Clone, Copy, Debug)]
pub struct Upvalue {
    pub index: usize,
    pub is_local: bool,
}

/// Instructions with the constants they use and the source line of each.
#[derive(Debug)]
pub struct Chunk {
    pub code: Vec<OpCode>,
    pub constants: Vec<Value>,
    pub lines: Vec<u32>,
}

/// A compiled function. The code of a whole program has no name.
#[derive(Debug)]
pub struct Function {
    pub arity: u8,
    pub chunk: Chunk,
    pub name: Option<usize>,
    pub upvalues: Vec<Upvalue>,
}

impl Function {
    pub open spec fn code(self) -> Seq<OpCode> {
        self.chunk.code@
    }

    pub open spec fn constants(self) -> Seq<Value> {
        self.chunk.constants@
    }

    pub open spec fn lines(self) -> Seq<u32> {
        self.chunk.lines@
    }
}

} // verus!
