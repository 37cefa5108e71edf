//! Running functions of a program.

use vstd::prelude::*;
use vstd::string::*;

use super::State;
use crate::error::{ErrorView, VmError};
use crate::event::{answer_of, follows, Event, Halt, Reply};
use crate::fuel::Fuel;
use crate::machine::{Machine, STACK_MAX_SIZE};
use crate::object::{Closure, UpvalueObj, UpvalueView};
use crate::semantics;
use crate::semantics::{rounds, Flow};
use crate::value::{NativeFn, Value};

verus! {

/// Whether what came of a run that could go on, and the machine after it, are as told.
pub open spec fn runs(flow: Flow, r: Result<Event, VmError>, after: Machine) -> bool {
    match r {
        Ok(event) => follows(flow, Ok::<Event, Halt>(event), after),
        Err(error) => follows(flow, Err::<Event, Halt>(Halt::Error(error)), after),
    }
}

/// What is left of a budget after the given cost.
pub open spec fn left_after(budget: int, cost: nat) -> int {
    if budget - cost < i32::MIN {
        i32::MIN as int
    } else {
        budget - cost
    }
}

/// The end of a machine that was known to be able to go on.
pub(super) fn settled(r: Result<Event, Halt>) -> (e: Result<Event, VmError>)
    requires
        !(r matches Err(Halt::Stuck)),
    ensures
        match r {
            Ok(event) => e == Ok::<Event, VmError>(event),
            Err(Halt::Error(error)) => e == Err::<Event, VmError>(error),
            Err(Halt::Stuck) => false,
        },
{
    match r {
        Ok(event) => Ok(event),
        Err(Halt::Error(error)) => Err(error),
        Err(Halt::Stuck) => Err(VmError::CompileError),
    }
}

impl State {
    /// The function that code calls by a number.
    pub fn get_chunk(&self, chunk_id: usize) -> (r: Result<usize, VmError>)
        requires
            self.wf(),
            self@.chunks.contains_key(chunk_id),
        ensures
            r == Ok::<usize, VmError>(self@.chunks[chunk_id]),
    {
        match self.find_chunk(chunk_id) {
            Some(function) => Ok(function),
            None => Err(VmError::CompileError),
        }
    }

    /// New captured variables, which no closure shares.
    fn new_upvalues(&mut self, n: usize) -> (r: Vec<usize>)
        requires
            old(self).wf(),
        ensures
            final(self).wf(),
            final(self)@ == (Machine {
                upvalues: old(self)@.upvalues + Seq::new(
                    n as nat,
                    |i: int| UpvalueView { location: 0, closed: None },
                ),
                ..old(self)@
            }),
            r@ == Seq::new(n as nat, |i: int| (old(self)@.upvalues.len() + i) as usize),
            forall|i: int| 0 <= i < r@.len() ==> (#[trigger] r@[i]) < final(self)@.upvalues.len(),
    {
        let ghost before = self@;
        let mut places: Vec<usize> = Vec::new();
        assert(self@.upvalues =~= before.upvalues + Seq::new(
            0,
            |i: int| UpvalueView { location: 0, closed: None },
        ));
        assert(self@ =~= Machine { upvalues: self@.upvalues, ..before });
        while places.len() < n
            invariant
                self.wf(),
                places@.len() <= n,
                self@ == (Machine {
                    upvalues: before.upvalues + Seq::new(
                        places@.len(),
                        |i: int| UpvalueView { location: 0, closed: None },
                    ),
                    ..before
                }),
                forall|i: int|
                    0 <= i < places@.len() ==> (#[trigger] places@[i]) == before.upvalues.len() + i,
            decreases n - places.len(),
        {
            let ghost m = self@;
            let place: usize = self.upvalues.len();
            self.upvalues.push(UpvalueObj { location: 0, closed: None, next: None });
            places.push(place);
            proof {
                let fresh = UpvalueView { location: 0, closed: None };
                assert(self@ =~= Machine { upvalues: m.upvalues.push(fresh), ..m });
                assert(m.upvalues.push(fresh) =~= before.upvalues + Seq::new(
                    places@.len(),
                    |i: int| UpvalueView { location: 0, closed: None },
                ));
            }
        }
        assert(places@ =~= Seq::new(n as nat, |i: int| (before.upvalues.len() + i) as usize));
        places
    }

    /// Begins a call of a function of the program, if the machine can.
    pub fn try_call_function(&mut self, chunk_id: usize) -> (r: Result<Event, Halt>)
        requires
            old(self).wf(),
        ensures
            final(self).wf(),
            follows(semantics::call_function(old(self)@, chunk_id), r, final(self)@),
    {
        match self.find_chunk(chunk_id) {
            None => Err(Halt::Stuck),
            Some(function) => {
                if self.stack_top >= STACK_MAX_SIZE {
                    return Err(Halt::Stuck);
                }
                let n: usize = self.functions[function].upvalues.len();
                let arity: u8 = self.functions[function].arity;
                let upvalues: Vec<usize> = self.new_upvalues(n);
                let closure: usize = self.new_closure(Closure { function, upvalues });
                assert(self@ =~= semantics::with_fresh_closure(old(self)@, function));
                self.push_stack(Value::Closure(closure));
                self.call(closure, arity)
            },
        }
    }

    /// Begins a call of a function of the program.
    pub fn call_function(&mut self, chunk_id: usize) -> (r: Result<(), VmError>)
        requires
            old(self).wf(),
            !(semantics::call_function(old(self)@, chunk_id) is Stuck),
        ensures
            final(self).wf(),
            match semantics::call_function(old(self)@, chunk_id) {
                Flow::Next(m) => r is Ok && final(self)@ == m,
                Flow::Fail(m, text) => r matches Err(e) && e@ == ErrorView::RuntimeError(text)
                    && final(self)@ == m,
                _ => false,
            },
    {
        match settled(self.try_call_function(chunk_id)) {
            Ok(_) => Ok(()),
            Err(error) => Err(error),
        }
    }

    /// Executes the next instruction. A return that leaves `stop_at_frame_count`
    /// calls under way ends the run.
    pub fn dispatch_next(&mut self, stop_at_frame_count: usize) -> (r: Result<Event, VmError>)
        requires
            old(self).wf(),
            !(semantics::dispatch(old(self)@, stop_at_frame_count as int) is Stuck),
        ensures
            final(self).wf(),
            runs(semantics::dispatch(old(self)@, stop_at_frame_count as int), r, final(self)@),
    {
        settled(self.try_dispatch_next(stop_at_frame_count))
    }

    /// Executes instructions until the budget is spent, the run ends, or the host
    /// has to answer. `Event::Next` says that the budget is spent.
    pub fn try_run(&mut self, stop_at_frame_count: usize, fuel: &mut Fuel) -> (r: Result<
        Event,
        Halt,
    >)
        requires
            old(self).wf(),
        ensures
            final(self).wf(),
            follows(
                semantics::run(
                    old(self)@,
                    stop_at_frame_count as int,
                    rounds(old(fuel).left()),
                ),
                r,
                final(self)@,
            ),
            final(fuel).left() == left_after(
                old(fuel).left(),
                semantics::cost(
                    old(self)@,
                    stop_at_frame_count as int,
                    rounds(old(fuel).left()),
                ),
            ),
    {
        let ghost stop = stop_at_frame_count as int;
        loop
            invariant
                self.wf(),
                stop == stop_at_frame_count,
                semantics::run(self@, stop, rounds(fuel.left())) == semantics::run(
                    old(self)@,
                    stop,
                    rounds(old(fuel).left()),
                ),
                left_after(
                    fuel.left(),
                    semantics::cost(self@, stop, rounds(fuel.left())),
                ) == left_after(
                    old(fuel).left(),
                    semantics::cost(old(self)@, stop, rounds(old(fuel).left())),
                ),
            decreases rounds(fuel.left()),
        {
            let ghost m = self@;
            let ghost budget = fuel.left();
            proof {
                fuel.left_in_range();
            }
            let result: Result<Event, Halt> = self.try_dispatch_next(stop_at_frame_count);
            match result {
                Ok(Event::Next) => {
                    fuel.consume(1);
                    if !fuel.should_continue() {
                        return Ok(Event::Next);
                    }
                },
                Ok(Event::Ask(request)) => {
                    fuel.consume(1);
                    return Ok(Event::Ask(request));
                },
                Ok(Event::Done(value)) => {
                    return Ok(Event::Done(value));
                },
                Err(halt) => {
                    return Err(halt);
                },
            }
        }
    }

    /// Runs the machine for as long as the budget lasts, if the machine can.
    pub fn try_step(&mut self, fuel: &mut Fuel) -> (r: Result<Event, Halt>)
        requires
            old(self).wf(),
        ensures
            final(self).wf(),
            follows(
                semantics::run(old(self)@, 0, rounds(old(fuel).left())),
                r,
                final(self)@,
            ),
            final(fuel).left() == left_after(
                old(fuel).left(),
                semantics::cost(old(self)@, 0, rounds(old(fuel).left())),
            ),
    {
        self.try_run(0, fuel)
    }

    /// Runs the machine for as long as the budget lasts.
    pub fn step(&mut self, fuel: &mut Fuel) -> (r: Result<Event, VmError>)
        requires
            old(self).wf(),
            !(semantics::run(old(self)@, 0, rounds(old(fuel).left())) is Stuck),
        ensures
            final(self).wf(),
            runs(semantics::run(old(self)@, 0, rounds(old(fuel).left())), r, final(self)@),
            final(fuel).left() == left_after(
                old(fuel).left(),
                semantics::cost(old(self)@, 0, rounds(old(fuel).left())),
            ),
    {
        settled(self.try_step(fuel))
    }

    /// Calls a function of the program and runs it for as long as the budget lasts,
    /// if the machine can.
    pub fn try_eval_function(&mut self, chunk_id: usize, fuel: &mut Fuel) -> (r: Result<
        Event,
        Halt,
    >)
        requires
            old(self).wf(),
        ensures
            final(self).wf(),
            follows(
                semantics::eval_function(old(self)@, chunk_id, rounds(old(fuel).left())),
                r,
                final(self)@,
            ),
            final(fuel).left() == left_after(
                old(fuel).left(),
                semantics::eval_cost(old(self)@, chunk_id, rounds(old(fuel).left())),
            ),
    {
        proof {
            fuel.left_in_range();
        }
        let frame_count: usize = self.frame_count;
        match self.try_call_function(chunk_id) {
            Ok(_) => self.try_run(frame_count, fuel),
            Err(halt) => Err(halt),
        }
    }

    /// Calls a function of the program and runs it for as long as the budget lasts.
    /// Where the budget is spent or the host has to answer before the call has
    /// returned, the run goes on with `try_run` and the number of calls that were
    /// under way before.
    pub fn eval_function(&mut self, chunk_id: usize, fuel: &mut Fuel) -> (r: Result<
        Event,
        VmError,
    >)
        requires
            old(self).wf(),
            !(semantics::eval_function(
                old(self)@,
                chunk_id,
                rounds(old(fuel).left()),
            ) is Stuck),
        ensures
            final(self).wf(),
            runs(
                semantics::eval_function(old(self)@, chunk_id, rounds(old(fuel).left())),
                r,
                final(self)@,
            ),
            final(fuel).left() == left_after(
                old(fuel).left(),
                semantics::eval_cost(old(self)@, chunk_id, rounds(old(fuel).left())),
            ),
    {
        settled(self.try_eval_function(chunk_id, fuel))
    }

    /// The number of calls under way.
    pub fn frame_count(&self) -> (r: usize)
        requires
            self.wf(),
        ensures
            r == self@.frames.len(),
    {
        self.frame_count
    }

    /// Whether what a value refers to is there.
    pub fn holds(&self, value: Value) -> (r: bool)
        requires
            self.wf(),
        ensures
            r == self@.value_ok(value),
    {
        match value {
            Value::String(s) => s < self.strings.len(),
            Value::Closure(c) => c < self.closures.len(),
            Value::Class(c) => c < self.classes.len(),
            Value::Instance(i) => i < self.instances.len(),
            Value::BoundMethod(b) => b < self.bound_methods.len(),
            _ => true,
        }
    }

    /// Goes on with the host's answer to a request.
    pub fn resume(&mut self, reply: Reply) -> (r: Result<Event, Halt>)
        requires
            old(self).wf(),
        ensures
            final(self).wf(),
            follows(
                match reply {
                    Reply::Value(value) => semantics::resume_value(old(self)@, value),
                    Reply::Text(bytes) => semantics::resume_text(old(self)@, bytes@),
                },
                r,
                final(self)@,
            ),
    {
        match reply {
            Reply::Value(value) => {
                if !self.holds(value) {
                    return Err(Halt::Stuck);
                }
                self.push(value)
            },
            Reply::Text(bytes) => {
                let place: usize = self.intern(bytes.as_slice());
                self.push(Value::String(place))
            },
        }
    }

    /// Goes on with the host's answer to a request, and with more instructions as
    /// long as the budget lasts, if the machine can. `Event::Next` says that the
    /// budget is spent.
    pub fn try_answer(
        &mut self,
        stop_at_frame_count: usize,
        reply: Option<Reply>,
        fuel: &mut Fuel,
    ) -> (r: Result<Event, Halt>)
        requires
            old(self).wf(),
        ensures
            final(self).wf(),
            follows(
                semantics::go_on(
                    old(self)@,
                    stop_at_frame_count as int,
                    answer_of(reply),
                    old(fuel).left(),
                ),
                r,
                final(self)@,
            ),
            final(fuel).left() == left_after(
                old(fuel).left(),
                semantics::go_on_cost(
                    old(self)@,
                    stop_at_frame_count as int,
                    answer_of(reply),
                    old(fuel).left(),
                ),
            ),
    {
        proof {
            fuel.left_in_range();
        }
        let taken: Result<Event, Halt> = match reply {
            Some(reply) => self.resume(reply),
            None => Ok(Event::Next),
        };
        match taken {
            Ok(_) => {
                if fuel.should_continue() {
                    self.try_run(stop_at_frame_count, fuel)
                } else {
                    Ok(Event::Next)
                }
            },
            Err(halt) => Err(halt),
        }
    }

    /// Puts a function of the host under a name.
    fn define_native_function(&mut self, name: &'static str, function: NativeFn)
        requires
            old(self).wf(),
        ensures
            final(self).wf(),
            final(self)@ == semantics::with_native(old(self)@, name.spec_bytes(), function),
    {
        let s: usize = self.intern_static(name);
        self.set_global(s, Value::NativeFunction(function));
    }

    /// Puts all functions that the host offers under their names.
    pub fn define_builtins(&mut self)
        requires
            old(self).wf(),
        ensures
            final(self).wf(),
            final(self)@ == semantics::with_builtins(old(self)@),
    {
        self.define_native_function("clock", NativeFn::Clock);
    }
}

} // verus!
