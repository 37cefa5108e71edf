//! Calls.

use vstd::prelude::*;
use vstd::string::*;

use super::State;
use crate::error::VmError;
use crate::event::{follows, Event, Halt, Request};
use crate::machine::{CallFrame, Machine, FRAME_MAX_SIZE, STACK_MAX_SIZE};
use crate::object::BoundMethod;
use crate::semantics;
use crate::table::new_table;
use crate::text::{decimal_text, join3, show};
use crate::value::Value;

verus! {

/// An error that tells no place.
pub(super) fn plain_error(message: &str) -> (r: Result<Event, Halt>)
    ensures
        r matches Err(Halt::Error(VmError::RuntimeError(s))) && s@ == message@,
{
    Err(Halt::Error(VmError::RuntimeError(message.to_owned())))
}

fn wrong_arguments(expected: u8, given: u8) -> (r: String)
    ensures
        r@ == semantics::wrong_arguments(expected, given),
{
    let mut text: String = "Expected ".to_owned();
    text.append(decimal_text(expected as u32).as_str());
    text.append(" arguments but got ");
    text.append(decimal_text(given as u32).as_str());
    text.append(".");
    text
}

/// A copy of bytes.
pub(super) fn copy_bytes(bytes: &[u8]) -> (r: Vec<u8>)
    ensures
        r@ == bytes@,
{
    let n: usize = bytes.len();
    let mut copy: Vec<u8> = Vec::new();
    let mut i: usize = 0;
    while i < n
        invariant
            n == bytes@.len(),
            i <= n,
            copy@ == bytes@.subrange(0, i as int),
        decreases n - i,
    {
        copy.push(bytes[i]);
        i = i + 1;
        assert(copy@ =~= bytes@.subrange(0, i as int));
    }
    assert(copy@ =~= bytes@);
    copy
}

impl State {
    fn undefined_property(&self, name: usize) -> (r: Result<Event, Halt>)
        requires
            self.wf(),
            name < self@.strings.len(),
        ensures
            follows(
                semantics::fail(self@, semantics::undefined_property(self@, name)),
                r,
                self@,
            ),
    {
        self.fail(join3("Undefined property '", show(self.strings.get(name)).as_str(), "'."))
    }

    /// Begins a call of a closure with the arguments on top of the stack.
    pub(super) fn call(&mut self, closure: usize, arg_count: u8) -> (r: Result<Event, Halt>)
        requires
            old(self).wf(),
            closure < old(self)@.closures.len(),
        ensures
            final(self).wf(),
            follows(semantics::call(old(self)@, closure, arg_count), r, final(self)@),
    {
        assert(self@.closure_ok(self@.closures[closure as int]));
        let arity: u8 = self.functions[self.closures[closure].function].arity;
        if arg_count != arity {
            return self.fail(wrong_arguments(arity, arg_count));
        }
        if self.frame_count == FRAME_MAX_SIZE {
            return self.fail("Stack overflow.".to_owned());
        }
        if self.stack_top < arg_count as usize + 1 {
            return Err(Halt::Stuck);
        }
        let slot_start: usize = self.stack_top - arg_count as usize - 1;
        let frame: CallFrame = CallFrame { closure, ip: 0, slot_start };
        self.frames.push(frame);
        self.frame_count = self.frame_count + 1;
        assert(self@ =~= Machine { frames: old(self)@.frames.push(frame), ..old(self)@ });
        Ok(Event::Next)
    }

    /// Calls what is to be a closure.
    fn call_method(&mut self, method: Value, arg_count: u8) -> (r: Result<Event, Halt>)
        requires
            old(self).wf(),
            old(self)@.value_ok(method),
        ensures
            final(self).wf(),
            follows(semantics::call_method(old(self)@, method, arg_count), r, final(self)@),
    {
        match method {
            Value::Closure(closure) => self.call(closure, arg_count),
            _ => plain_error("cannot convert to closure"),
        }
    }

    /// Makes an instance of a class and calls its initializer.
    fn instantiate(&mut self, class: usize, arg_count: u8) -> (r: Result<Event, Halt>)
        requires
            old(self).wf(),
            class < old(self)@.classes.len(),
        ensures
            final(self).wf(),
            follows(semantics::instantiate(old(self)@, class, arg_count), r, final(self)@),
    {
        if self.stack_top < arg_count as usize + 1 {
            return Err(Halt::Stuck);
        }
        let slot: usize = self.stack_top - arg_count as usize - 1;
        let instance: usize = self.new_instance(class, new_table());
        self.stack_set(slot, Value::Instance(instance));
        let init: usize = self.intern_static("init");
        match self.get_method(class, init) {
            Some(initializer) => self.call_method(initializer, arg_count),
            None => {
                if arg_count != 0 {
                    self.fail(wrong_arguments(0, arg_count))
                } else {
                    Ok(Event::Next)
                }
            },
        }
    }

    /// Calls a value with the arguments on top of the stack.
    pub(super) fn call_value(&mut self, callee: Value, arg_count: u8) -> (r: Result<Event, Halt>)
        requires
            old(self).wf(),
            old(self)@.value_ok(callee),
        ensures
            final(self).wf(),
            follows(semantics::call_value(old(self)@, callee, arg_count), r, final(self)@),
    {
        match callee {
            Value::BoundMethod(b) => {
                let bound: BoundMethod = self.bound_methods[b];
                assert(bound == self@.bound_methods[b as int]);
                if self.stack_top < arg_count as usize + 1 {
                    return Err(Halt::Stuck);
                }
                self.stack_set(self.stack_top - arg_count as usize - 1, bound.receiver);
                self.call(bound.method, arg_count)
            },
            Value::Class(class) => self.instantiate(class, arg_count),
            Value::Closure(closure) => self.call(closure, arg_count),
            Value::NativeFunction(function) => {
                let arguments: Vec<Value> = self.pop_stack_n(arg_count as usize);
                if self.stack_top < 1 {
                    return Err(Halt::Stuck);
                }
                self.pop_stack();
                assert(self@ =~= old(self)@.dropped(arguments@.len() as int + 1));
                Ok(Event::Ask(Request::CallNative { function, arguments }))
            },
            Value::Agent(_) => {
                if self.stack_top >= STACK_MAX_SIZE {
                    return Err(Halt::Stuck);
                }
                self.push_stack(callee);
                Ok(Event::Next)
            },
            _ => self.fail("Can only call functions and classes.".to_owned()),
        }
    }

    /// Calls a method of a class by name.
    pub(super) fn invoke_from_class(&mut self, class: usize, name: usize, arg_count: u8) -> (r:
        Result<Event, Halt>)
        requires
            old(self).wf(),
            class < old(self)@.classes.len(),
            name < old(self)@.strings.len(),
        ensures
            final(self).wf(),
            follows(
                semantics::invoke_from_class(old(self)@, class, name, arg_count),
                r,
                final(self)@,
            ),
    {
        match self.get_method(class, name) {
            Some(method) => self.call_method(method, arg_count),
            None => self.undefined_property(name),
        }
    }

    /// Calls what a name stands for on the receiver below the arguments.
    pub(super) fn invoke(&mut self, name: usize, arg_count: u8) -> (r: Result<Event, Halt>)
        requires
            old(self).wf(),
            name < old(self)@.strings.len(),
        ensures
            final(self).wf(),
            follows(semantics::invoke(old(self)@, name, arg_count), r, final(self)@),
    {
        if self.stack_top < arg_count as usize + 1 {
            return Err(Halt::Stuck);
        }
        let receiver: Value = self.peek(arg_count as usize);
        match receiver {
            Value::Instance(instance) => {
                match self.get_field(instance, name) {
                    Some(value) => {
                        self.stack_set(self.stack_top - arg_count as usize - 1, value);
                        self.call_value(value, arg_count)
                    },
                    None => {
                        assert(self@.instances[instance as int].class < self@.classes.len());
                        let class: usize = self.instances[instance].class;
                        self.invoke_from_class(class, name, arg_count)
                    },
                }
            },
            Value::Agent(agent) => {
                if self.strings.is_text(name, "run") {
                    match self.pop_stack() {
                        Value::String(s) => {
                            let message: Vec<u8> = copy_bytes(self.strings.get(s));
                            Ok(Event::Ask(Request::RunAgent { agent, message }))
                        },
                        _ => Err(Halt::Stuck),
                    }
                } else {
                    self.fail(
                        join3(
                            "Agent have no methods called '",
                            show(self.strings.get(name)).as_str(),
                            "'.",
                        ),
                    )
                }
            },
            _ => self.fail("Only instances have methods.".to_owned()),
        }
    }

    /// Puts a method of a class, bound to the instance on top of the stack, in the
    /// place of that instance.
    pub(super) fn bind_method(&mut self, class: usize, name: usize) -> (r: Result<Event, Halt>)
        requires
            old(self).wf(),
            class < old(self)@.classes.len(),
            name < old(self)@.strings.len(),
        ensures
            final(self).wf(),
            follows(semantics::bind_method(old(self)@, class, name), r, final(self)@),
    {
        match self.get_method(class, name) {
            Some(method) => {
                if self.stack_top < 1 {
                    return Err(Halt::Stuck);
                }
                match method {
                    Value::Closure(closure) => {
                        let bound: BoundMethod = BoundMethod {
                            receiver: self.peek(0),
                            method: closure,
                        };
                        let place: usize = self.new_bound_method(bound);
                        self.pop_stack();
                        self.push_stack(Value::BoundMethod(place));
                        Ok(Event::Next)
                    },
                    _ => plain_error("cannot convert to closure"),
                }
            },
            None => self.undefined_property(name),
        }
    }
}

} // verus!
