//! Programs and what the host gives them.

use std::collections::{BTreeMap, HashMap};

use serde_json::Value as SerdeValue;
use vstd::prelude::*;
use vstd::string::*;
use vstd::utf8::*;

use super::run::{left_after, settled};
use super::{Context, State};
use crate::chunk::Function;
use crate::compiler;
use crate::error::{ErrorView, VmError};
use crate::event::{answer_of, follows, Event, Halt, Reply};
use crate::fuel::Fuel;
use crate::inject::{
    distinct_names, enumerates, field_entries, json_scalars, json_value, scalars,
    static_json_scalars, variable_entries, with_fields, with_object, with_variable, with_variables,
    Json,
};
use crate::laws::programs::numbers_in_range;
use crate::machine::Machine;
use crate::semantics;
use crate::semantics::{functions_ok, rounds, Flow};
use crate::table::{new_table, table_insert, Table};
use crate::value::Value;

verus! {

/// The instructions that are executed between two looks at the garbage collector.
pub const FUEL_PER_GC: i32 = 10240;

/// A machine with a program.
pub struct Vm {
    pub state: State,
}

/// What the host lets its garbage collector do.
#[derive(Clone, Copy, PartialEq, Eq, Structural, Debug)]
pub enum CollectorAction {
    /// Nothing: too little has been allocated.
    Wait,
    /// Go on with the sweep that is under way.
    CollectDebt,
    /// Mark everything and begin to sweep.
    MarkAndSweep,
}

/// What the garbage collector is to do, given whether it is behind by more than it
/// may be and whether it is sweeping.
pub fn collector_action(behind: bool, sweeping: bool) -> (r: CollectorAction)
    ensures
        r == (if !behind {
            CollectorAction::Wait
        } else if sweeping {
            CollectorAction::CollectDebt
        } else {
            CollectorAction::MarkAndSweep
        }),
{
    if behind {
        if sweeping {
            CollectorAction::CollectDebt
        } else {
            CollectorAction::MarkAndSweep
        }
    } else {
        CollectorAction::Wait
    }
}

impl View for Vm {
    type V = Machine;

    open spec fn view(&self) -> Machine {
        self.state@
    }
}

impl Default for Vm {
    fn default() -> (r: Self)
        ensures
            r.wf(),
            r@ == Machine::blank(),
    {
        Vm::new()
    }
}

impl State {
    /// Whether the constants and the name of a function refer to what is there.
    pub fn accepts(&self, function: &Function) -> (r: bool)
        requires
            self.wf(),
        ensures
            r == self@.function_ok(*function),
    {
        let n: usize = function.chunk.constants.len();
        let mut i: usize = 0;
        while i < n
            invariant
                self.wf(),
                n == function.constants().len(),
                i <= n,
                forall|j: int| 0 <= j < i ==> self@.value_ok(#[trigger] function.constants()[j]),
            decreases n - i,
        {
            let value: Value = function.chunk.constants[i];
            assert(value == function.constants()[i as int]);
            if !self.holds(value) {
                return false;
            }
            i = i + 1;
        }
        match function.name {
            Some(name) => name < self.strings.len(),
            None => true,
        }
    }

    fn accepts_all(&self, list: &Vec<(usize, Function)>) -> (r: bool)
        requires
            self.wf(),
        ensures
            r == functions_ok(self@, list@),
    {
        let n: usize = list.len();
        let mut i: usize = 0;
        while i < n
            invariant
                self.wf(),
                n == list@.len(),
                i <= n,
                forall|j: int| 0 <= j < i ==> self@.function_ok((#[trigger] list@[j]).1),
            decreases n - i,
        {
            if !self.accepts(&list[i].1) {
                return false;
            }
            i = i + 1;
        }
        true
    }

    /// A JSON value as a value of this machine.
    fn json(&mut self, json: &Json) -> (r: Option<Value>)
        requires
            old(self).wf(),
        ensures
            final(self).wf(),
            match json_value(old(self)@, json@) {
                Some((m, value)) => r == Some(value) && final(self)@ == m && m.value_ok(value),
                None => r is None && final(self)@ == old(self)@,
            },
            old(self)@.strings.len() <= final(self)@.strings.len(),
    {
        match json {
            Json::Null => Some(Value::Nil),
            Json::Bool(b) => Some(Value::Boolean(*b)),
            Json::Number(n) => Some(Value::Number(*n)),
            Json::String(s) => Some(Value::String(self.intern(s.as_slice()))),
            Json::Compound => None,
        }
    }

    /// Gives programs a global variable.
    fn inject_variable(&mut self, name: &str, value: &Json)
        requires
            old(self).wf(),
        ensures
            final(self).wf(),
            final(self)@ == with_variable(old(self)@, encode_utf8(name@), value@),
    {
        let place: usize = self.intern(name.as_bytes());
        match self.json(value) {
            Some(v) => {
                self.set_global(place, v);
            },
            None => {},
        }
    }

    /// Puts the chunks of a program in place of those there were.
    fn set_chunks(&mut self, chunks: BTreeMap<usize, usize>)
        requires
            old(self).wf(),
            forall|k: usize| #[trigger]
                chunks@.contains_key(k) ==> chunks@[k] < old(self)@.functions.len(),
        ensures
            final(self).wf(),
            final(self)@ == (Machine { chunks: chunks@, ..old(self)@ }),
    {
        self.chunks = chunks;
        assert(self@ =~= Machine { chunks: chunks@, ..old(self)@ });
    }
}

impl Vm {
    pub open spec fn wf(&self) -> bool {
        self.state.wf()
    }

    /// A machine without a program.
    pub fn new() -> (r: Vm)
        ensures
            r.wf(),
            r@ == Machine::blank(),
    {
        Vm { state: State::new() }
    }

    /// Loads what a code generator made of a program and calls its function 0, if
    /// the machine can.
    pub fn try_compile(&mut self, generated: Result<Vec<(usize, Function)>, VmError>) -> (r: Result<
        Event,
        Halt,
    >)
        requires
            old(self).wf(),
        ensures
            final(self).wf(),
            match generated {
                Ok(list) => follows(semantics::load(old(self)@, list@), r, final(self)@),
                Err(error) => r == Err::<Event, Halt>(Halt::Error(error)) && final(self)@ == old(
                    self,
                )@,
            },
    {
        match &generated {
            Ok(list) => {
                if !self.state.accepts_all(list) {
                    return Err(Halt::Stuck);
                }
            },
            Err(_) => {},
        }
        let ghost before = self@;
        let result: Result<BTreeMap<usize, usize>, VmError> = compiler::compile(
            Context { state: &mut self.state },
            generated,
        );
        match result {
            Ok(chunks) => {
                proof {
                    let list = generated->Ok_0@;
                    assert(self.state.functions.len() == before.functions.len() + list.len());
                    numbers_in_range(list, before.functions.len() as int);
                }
                self.state.set_chunks(chunks);
                self.state.define_builtins();
                self.state.try_call_function(0)
            },
            Err(error) => Err(Halt::Error(error)),
        }
    }

    /// Loads what a code generator made of a program and calls its function 0.
    pub fn compile(&mut self, generated: Result<Vec<(usize, Function)>, VmError>) -> (r: Result<
        (),
        VmError,
    >)
        requires
            old(self).wf(),
            generated matches Ok(list) ==> !(semantics::load(old(self)@, list@) is Stuck),
        ensures
            final(self).wf(),
            match generated {
                Ok(list) => match semantics::load(old(self)@, list@) {
                    Flow::Next(m) => r is Ok && final(self)@ == m,
                    Flow::Fail(m, text) => r matches Err(e) && e@ == ErrorView::RuntimeError(text)
                        && final(self)@ == m,
                    _ => false,
                },
                Err(error) => r == Err::<(), VmError>(error) && final(self)@ == old(self)@,
            },
    {
        match settled(self.try_compile(generated)) {
            Ok(_) => Ok(()),
            Err(error) => Err(error),
        }
    }

    /// Runs the program for as long as the budget lasts, if the machine can. The
    /// host answers requests with `answer`, and looks at its garbage collector before
    /// it sets out on the next budget of `FUEL_PER_GC`.
    pub fn interpret(&mut self, fuel: &mut Fuel) -> (r: Result<Event, Halt>)
        requires
            old(self).wf(),
        ensures
            final(self).wf(),
            follows(
                semantics::run(old(self)@, 0, rounds(old(fuel).left())),
                r,
                final(self)@,
            ),
            final(fuel).left() == left_after(
                old(fuel).left(),
                semantics::cost(old(self)@, 0, rounds(old(fuel).left())),
            ),
    {
        self.state.try_step(fuel)
    }

    /// Goes on with the host's answer to a request for as long as the budget lasts, if
    /// the machine can.
    pub fn answer(&mut self, reply: Option<Reply>, fuel: &mut Fuel) -> (r: Result<Event, Halt>)
        requires
            old(self).wf(),
        ensures
            final(self).wf(),
            follows(
                semantics::go_on(old(self)@, 0, answer_of(reply), old(fuel).left()),
                r,
                final(self)@,
            ),
            final(fuel).left() == left_after(
                old(fuel).left(),
                semantics::go_on_cost(old(self)@, 0, answer_of(reply), old(fuel).left()),
            ),
    {
        self.state.try_answer(0, reply, fuel)
    }

    /// Gives programs global variables, in order. Arrays and objects are passed over.
    pub fn inject_scalars(&mut self, variables: &Vec<(String, Json)>)
        requires
            old(self).wf(),
        ensures
            final(self).wf(),
            final(self)@ == with_variables(old(self)@, scalars(variables@)),
    {
        let ghost list = scalars(variables@);
        let n: usize = variables.len();
        let mut i: usize = 0;
        while i < n
            invariant
                self.wf(),
                n == variables@.len(),
                list == scalars(variables@),
                i <= n,
                self@ == with_variables(old(self)@, list.take(i as int)),
            decreases n - i,
        {
            self.state.inject_variable(variables[i].0.as_str(), &variables[i].1);
            assert(list.take(i + 1).drop_last() =~= list.take(i as int));
            i = i + 1;
        }
        assert(list.take(n as int) =~= list);
    }

    /// Gives programs global variables, in an order that is left open. Arrays and
    /// objects are passed over.
    pub fn inject_variables(&mut self, variables: HashMap<String, SerdeValue>)
        requires
            old(self).wf(),
        ensures
            final(self).wf(),
            exists|list: Seq<(String, SerdeValue)>|
                enumerates(list, variables@) && distinct_names(json_scalars(list))
                    && final(self)@ == with_variables(old(self)@, json_scalars(list)),
    {
        let entries: Vec<(String, Json)> = variable_entries(variables);
        self.inject_scalars(&entries);
    }

    /// Gives programs a global variable that holds an instance of a class of its
    /// own, with the given fields. Arrays and objects are passed over.
    pub fn inject_object(&mut self, name: &'static str, fields: &Vec<(String, Json)>)
        requires
            old(self).wf(),
        ensures
            final(self).wf(),
            final(self)@ == with_object(old(self)@, encode_utf8(name@), scalars(fields@)),
    {
        let ghost list = scalars(fields@);
        let place: usize = self.state.intern_static(name);
        let class: usize = self.state.new_class(place);
        let ghost named = self@;
        let mut table: Table = new_table();
        let n: usize = fields.len();
        let mut i: usize = 0;
        while i < n
            invariant
                self.wf(),
                n == fields@.len(),
                list == scalars(fields@),
                i <= n,
                place < self@.strings.len(),
                class < self@.classes.len(),
                self@.table_ok(table@),
                (self@, table@) == with_fields(named, list.take(i as int)),
            decreases n - i,
        {
            let key: &str = fields[i].0.as_str();
            match self.state.json(&fields[i].1) {
                Some(value) => {
                    let name: usize = self.state.intern(key.as_bytes());
                    table_insert(&mut table, name, value);
                },
                None => {},
            }
            assert(list.take(i + 1).drop_last() =~= list.take(i as int));
            i = i + 1;
        }
        assert(list.take(n as int) =~= list);
        let instance: usize = self.state.new_instance(class, table);
        self.state.set_global(place, Value::Instance(instance));
    }

    /// Gives programs a global variable that holds an instance of a class of its
    /// own, with the given fields. Arrays and objects are passed over.
    pub fn inject_instance(&mut self, name: &'static str, fields: HashMap<&'static str, SerdeValue>)
        requires
            old(self).wf(),
        ensures
            final(self).wf(),
            exists|list: Seq<(&'static str, SerdeValue)>|
                enumerates(list, fields@) && distinct_names(static_json_scalars(list))
                    && final(self)@ == with_object(
                    old(self)@,
                    encode_utf8(name@),
                    static_json_scalars(list),
                ),
    {
        let entries: Vec<(String, Json)> = field_entries(fields);
        self.inject_object(name, &entries);
    }
}

} // verus!
