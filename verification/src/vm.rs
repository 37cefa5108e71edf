//! The machine that runs programs.

use std::collections::BTreeMap;

use vstd::prelude::*;

use crate::chunk::Function;
use crate::machine::{CallFrame, Machine, FRAME_MAX_SIZE, STACK_MAX_SIZE};
use crate::object::{BoundMethod, Class, Closure, Instance, UpvalueObj};
use crate::string::InternedStringSet;
use crate::table::{new_table, Table};
use crate::value::Value;

mod calls;
mod context;
mod dispatch;
mod frames;
mod heap;
mod ops;
mod program;
mod run;
mod stack;
mod upvalues;

pub use self::context::Context;
pub use self::program::{collector_action, CollectorAction, Vm, FUEL_PER_GC};
pub use self::run::{left_after, runs};

verus! {

/// The state of the machine.
///
/// Objects are kept in one list for each kind and refer to each other by place.
/// `Machine` is what contracts say of it; `wf` is what always holds of it.
pub struct State {
    chunks: BTreeMap<usize, usize>,
    frames: Vec<CallFrame>,
    frame_count: usize,
    stack: Vec<Value>,
    stack_top: usize,
    strings: InternedStringSet,
    globals: Table,
    open_upvalues: Option<usize>,
    open_list: Ghost<Seq<usize>>,
    functions: Vec<Function>,
    closures: Vec<Closure>,
    upvalues: Vec<UpvalueObj>,
    classes: Vec<Class>,
    instances: Vec<Instance>,
    bound_methods: Vec<BoundMethod>,
}

/// The places of a list that starts at `head` and goes on through `next`.
spec fn linked(list: Seq<usize>, upvalues: Seq<UpvalueObj>, head: Option<usize>) -> bool {
    &&& head == link(list, 0)
    &&& forall|i: int|
        0 <= i < list.len() ==> list[i] < upvalues.len() && (
        #[trigger] upvalues[list[i] as int]).next == link(list, i + 1)
}

/// What refers to the item `i` of a list.
spec fn link(list: Seq<usize>, i: int) -> Option<usize> {
    if i < list.len() {
        Some(list[i])
    } else {
        None
    }
}

impl View for State {
    type V = Machine;

    closed spec fn view(&self) -> Machine {
        Machine {
            stack: self.stack@,
            top: self.stack_top as int,
            frames: self.frames@,
            strings: self.strings@,
            globals: self.globals@,
            chunks: self.chunks@,
            functions: self.functions@,
            closures: self.closures@.map_values(|c: Closure| c@),
            upvalues: self.upvalues@.map_values(|u: UpvalueObj| u@),
            open: self.open_list@,
            classes: self.classes@.map_values(|c: Class| c@),
            instances: self.instances@.map_values(|i: Instance| i@),
            bound_methods: self.bound_methods@,
        }
    }
}

impl State {
    /// The machine is well-formed, frames are counted, and the captured variables
    /// that live on the stack are linked in the order of the list.
    pub closed spec fn wf(&self) -> bool {
        &&& self@.wf()
        &&& self.frame_count == self.frames@.len()
        &&& linked(self.open_list@, self.upvalues@, self.open_upvalues)
    }

    /// What `wf` means for the machine, and that none of its lists is longer than the
    /// address space is large.
    pub proof fn wf_machine(&self)
        requires
            self.wf(),
        ensures
            self@.wf(),
            self@.strings.len() <= usize::MAX,
            self@.functions.len() <= usize::MAX,
            self@.closures.len() <= usize::MAX,
            self@.upvalues.len() <= usize::MAX,
            self@.classes.len() <= usize::MAX,
            self@.instances.len() <= usize::MAX,
            self@.bound_methods.len() <= usize::MAX,
    {
        self.strings.len_in_range();
        assert(self.functions.len() <= usize::MAX);
        assert(self.closures.len() <= usize::MAX);
        assert(self.upvalues.len() <= usize::MAX);
        assert(self.classes.len() <= usize::MAX);
        assert(self.instances.len() <= usize::MAX);
        assert(self.bound_methods.len() <= usize::MAX);
    }

    /// A machine with no program.
    pub(crate) fn new() -> (r: State)
        ensures
            r.wf(),
            r@ == Machine::blank(),
    {
        let mut stack: Vec<Value> = Vec::new();
        let mut i: usize = 0;
        while i < STACK_MAX_SIZE
            invariant
                i <= STACK_MAX_SIZE,
                stack@.len() == i,
                forall|j: int| 0 <= j < i ==> stack@[j] == Value::Nil,
            decreases STACK_MAX_SIZE - i,
        {
            stack.push(Value::Nil);
            i = i + 1;
        }
        let r: State = State {
            chunks: BTreeMap::new(),
            frames: Vec::with_capacity(FRAME_MAX_SIZE),
            frame_count: 0,
            stack,
            stack_top: 0,
            strings: InternedStringSet::new(),
            globals: new_table(),
            open_upvalues: None,
            open_list: Ghost(Seq::empty()),
            functions: Vec::new(),
            closures: Vec::new(),
            upvalues: Vec::new(),
            classes: Vec::new(),
            instances: Vec::new(),
            bound_methods: Vec::new(),
        };
        assert(r@ =~= Machine::blank());
        r
    }
}

} // verus!
