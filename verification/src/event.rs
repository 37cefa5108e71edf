//! What a run of the machine comes to.

use vstd::prelude::*;
use vstd::string::*;

use crate::error::{ErrorView, VmError};
use crate::machine::Machine;
use crate::semantics::{Answer, ArithmeticOp, Flow, Inquiry};
use crate::text::same_bytes;
use crate::value::{NativeFn, Value};

verus! {

/// What the machine wants of its host before it can go on.
#[derive(Debug)]
pub enum Request {
    /// The rounded result of an operation on two numbers, given by their bits.
    /// Answered with `Reply::Value`.
    Arithmetic { op: ArithmeticOp, a: u64, b: u64 },
    /// To print a value. Takes no answer.
    Print(Value),
    /// A model's answer to a message. Answered with `Reply::Text`.
    Prompt(Vec<u8>),
    /// The result of a host function. Answered with `Reply::Value`.
    CallNative { function: NativeFn, arguments: Vec<Value> },
    /// An agent's answer to a message. Answered with `Reply::Text`.
    RunAgent { agent: usize, message: Vec<u8> },
}

impl View for Request {
    type V = Inquiry;

    open spec fn view(&self) -> Inquiry {
        match self {
            Request::Arithmetic { op, a, b } => Inquiry::Arithmetic { op: *op, a: *a, b: *b },
            Request::Print(v) => Inquiry::Print(*v),
            Request::Prompt(message) => Inquiry::Prompt(message@),
            Request::CallNative { function, arguments } => Inquiry::CallNative {
                function: *function,
                arguments: arguments@,
            },
            Request::RunAgent { agent, message } => Inquiry::RunAgent {
                agent: *agent,
                message: message@,
            },
        }
    }
}

/// A host's answer to a request.
#[derive(Debug)]
pub enum Reply {
    Value(Value),
    /// The bytes of a string.
    Text(Vec<u8>),
}

/// What a reply says. A request that takes none has been carried out.
pub open spec fn answer_of(reply: Option<Reply>) -> Answer {
    match reply {
        None => Answer::Printed,
        Some(Reply::Value(value)) => Answer::Value(value),
        Some(Reply::Text(bytes)) => Answer::Text(bytes@),
    }
}

/// The value of a program, free of the machine that computed it.
#[derive(Debug, PartialEq)]
pub enum ReturnValue {
    Nil,
    Boolean(bool),
    /// The bits of a number.
    Number(u64),
    /// The bytes of a string.
    String(Vec<u8>),
    /// The names and values of an instance's fields.
    Object(Vec<(Vec<u8>, ReturnValue)>),
    /// A value that means nothing outside the machine.
    Opaque,
}

/// Whether the result stands for the value, where an instance counts as opaque.
pub open spec fn stands_for_scalar(r: ReturnValue, m: Machine, v: Value) -> bool {
    match v {
        Value::Nil => r is Nil,
        Value::Boolean(b) => r == ReturnValue::Boolean(b),
        Value::Number(n) => r == ReturnValue::Number(n),
        Value::String(s) => r matches ReturnValue::String(bytes) && bytes@ == m.strings[s as int],
        _ => r is Opaque,
    }
}

/// Whether an entry of an object is the field of that name.
pub open spec fn stands_for_field(
    entry: (Vec<u8>, ReturnValue),
    m: Machine,
    fields: Map<usize, Value>,
    name: usize,
) -> bool {
    &&& fields.contains_key(name)
    &&& entry.0@ == m.strings[name as int]
    &&& stands_for_scalar(entry.1, m, fields[name])
}

/// Whether the list holds the fields in the order of the names.
pub open spec fn lists_fields(
    list: Seq<(Vec<u8>, ReturnValue)>,
    m: Machine,
    fields: Map<usize, Value>,
    names: Seq<usize>,
) -> bool {
    &&& names.len() == list.len()
    &&& names.no_duplicates()
    &&& names.to_set() == fields.dom()
    &&& forall|i: int|
        0 <= i < list.len() ==> stands_for_field(#[trigger] list[i], m, fields, names[i])
}

/// Whether the list holds each field once, under its name, and nothing else. The
/// order is left open.
pub open spec fn stands_for_fields(
    list: Seq<(Vec<u8>, ReturnValue)>,
    m: Machine,
    fields: Map<usize, Value>,
) -> bool {
    exists|names: Seq<usize>| lists_fields(list, m, fields, names)
}

/// Whether the result stands for the value of a machine.
pub open spec fn stands_for(r: ReturnValue, m: Machine, v: Value) -> bool {
    match v {
        Value::Instance(i) => r matches ReturnValue::Object(list) && stands_for_fields(
            list@,
            m,
            m.instances[i as int].fields,
        ),
        _ => stands_for_scalar(r, m, v),
    }
}

/// Where a machine is after an instruction.
#[derive(Debug)]
pub enum Event {
    /// More instructions are to come.
    Next,
    /// The run has ended with this value.
    Done(ReturnValue),
    /// The host has to answer.
    Ask(Request),
}

/// Why a machine cannot go on.
#[derive(Debug)]
pub enum Halt {
    /// The program failed.
    Error(VmError),
    /// The code reaches for what is not there, or the value stack is full.
    Stuck,
}

/// Whether what came of an instruction, and the machine after it, are as told.
pub open spec fn follows(flow: Flow, r: Result<Event, Halt>, after: Machine) -> bool {
    match flow {
        Flow::Next(m) => r == Ok::<Event, Halt>(Event::Next) && after == m,
        Flow::Done(m, v) => r matches Ok(Event::Done(value)) && stands_for(value, m, v) && after
            == m,
        Flow::Fail(m, text) => r matches Err(Halt::Error(e)) && e@ == ErrorView::RuntimeError(text)
            && after == m,
        Flow::Ask(m, inquiry) => r matches Ok(Event::Ask(request)) && request@ == inquiry && after
            == m,
        Flow::Stuck => r == Err::<Event, Halt>(Halt::Stuck),
    }
}

/// The value of the first entry of a list that has the name.
pub open spec fn first_named(list: Seq<(Vec<u8>, ReturnValue)>, name: Seq<u8>) -> Option<
    ReturnValue,
>
    decreases list.len(),
{
    if list.len() == 0 {
        None
    } else if list[0].0@ == name {
        Some(list[0].1)
    } else {
        first_named(list.drop_first(), name)
    }
}

impl ReturnValue {
    /// The fields of an object.
    pub open spec fn fields(self) -> Seq<(Vec<u8>, ReturnValue)> {
        match self {
            ReturnValue::Object(list) => list@,
            _ => Seq::empty(),
        }
    }

    /// The value of a field of an object: the first one of that name.
    pub open spec fn field(self, name: Seq<u8>) -> Option<ReturnValue> {
        first_named(self.fields(), name)
    }

    /// The value of a field of an object: the first one of that name.
    pub fn get(&self, name: &str) -> (r: Option<&ReturnValue>)
        ensures
            match r {
                Some(v) => self.field(name.spec_bytes()) == Some(*v),
                None => self.field(name.spec_bytes()) is None,
            },
    {
        match self {
            ReturnValue::Object(list) => {
                let wanted: &[u8] = name.as_bytes();
                let n: usize = list.len();
                let mut i: usize = 0;
                assert(list@.skip(0) =~= list@);
                while i < n
                    invariant
                        n == list@.len(),
                        i <= n,
                        wanted@ == name.spec_bytes(),
                        first_named(list@.skip(i as int), name.spec_bytes()) == first_named(
                            list@,
                            name.spec_bytes(),
                        ),
                        list@ == self.fields(),
                    decreases n - i,
                {
                    assert(list@.skip(i as int).drop_first() =~= list@.skip(i + 1));
                    if same_bytes(list[i].0.as_slice(), wanted) {
                        return Some(&list[i].1);
                    }
                    i = i + 1;
                }
                None
            },
            _ => None,
        }
    }
}

} // verus!
