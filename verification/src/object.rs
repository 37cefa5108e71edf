//! Objects on the machine's heap. They refer to each other by place.

use vstd::prelude::*;

use crate::table::Table;
use crate::value::Value;

verus! {

/// A function with the variables it has captured.
pub struct Closure {
    pub function: usize,
    pub upvalues: Vec<usize>,
}

pub struct ClosureView {
    pub function: usize,
    pub upvalues: Seq<usize>,
}

impl View for Closure {
    type V = ClosureView;

    open spec fn view(&self) -> ClosureView {
        ClosureView { function: self.function, upvalues: self.upvalues@ }
    }
}

/// A captured variable. It lives in a stack slot until it is closed; then it
/// holds its value itself. Open variables form a list.
#[derive(Clone, Copy)]
pub struct UpvalueObj {
    pub location: usize,
    pub closed: Option<Value>,
    pub next: Option<usize>,
}

pub struct UpvalueView {
    pub location: usize,
    pub closed: Option<Value>,
}

impl View for UpvalueObj {
    type V = UpvalueView;

    open spec fn view(&self) -> UpvalueView {
        UpvalueView { location: self.location, closed: self.closed }
    }
}

/// A class.
pub struct Class {
    pub name: usize,
    pub methods: Table,
}

pub struct ClassView {
    pub name: usize,
    pub methods: Map<usize, Value>,
}

impl View for Class {
    type V = ClassView;

    open spec fn view(&self) -> ClassView {
        ClassView { name: self.name, methods: self.methods@ }
    }
}

/// An instance of a class.
pub struct Instance {
    pub class: usize,
    pub fields: Table,
}

pub struct InstanceView {
    pub class: usize,
    pub fields: Map<usize, Value>,
}

impl View for Instance {
    type V = InstanceView;

    open spec fn view(&self) -> InstanceView {
        InstanceView { class: self.class, fields: self.fields@ }
    }
}

/// A method together with the instance it was taken from.
#[derive(Clone, Copy)]
pub struct BoundMethod {
    pub receiver: Value,
    pub method: usize,
}

} // verus!
