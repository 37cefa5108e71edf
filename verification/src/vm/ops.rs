//! Instructions.

use vstd::prelude::*;
use vstd::string::*;
use vstd::utf8::*;

use super::calls::{copy_bytes, plain_error};
use super::State;
use crate::event::{follows, Event, Halt, Request};
use crate::machine::STACK_MAX_SIZE;
use crate::number::{number_lt, number_neg};
use crate::object::UpvalueObj;
use crate::semantics;
use crate::semantics::ArithmeticOp;
use crate::text::{join3, show, shown};
use crate::value::Value;

verus! {

impl State {
    /// Pushes a value that the machine holds.
    pub(super) fn push(&mut self, value: Value) -> (r: Result<Event, Halt>)
        requires
            old(self).wf(),
            old(self)@.value_ok(value),
        ensures
            final(self).wf(),
            follows(semantics::push(old(self)@, value), r, final(self)@),
    {
        if self.stack_top >= STACK_MAX_SIZE {
            return Err(Halt::Stuck);
        }
        self.push_stack(value);
        Ok(Event::Next)
    }

    /// A constant of the running function that is a string.
    fn read_name(&self, index: u8) -> (r: Option<usize>)
        requires
            self.wf(),
            self@.frames.len() > 0,
        ensures
            r == (match self@.constant(index) {
                Some(Value::String(name)) => Some(name),
                _ => None,
            }),
            r matches Some(name) ==> name < self@.strings.len(),
    {
        match self.read_constant(index) {
            Some(Value::String(name)) => Some(name),
            _ => None,
        }
    }

    pub(super) fn op_constant(&mut self, index: u8) -> (r: Result<Event, Halt>)
        requires
            old(self).wf(),
            old(self)@.frames.len() > 0,
        ensures
            final(self).wf(),
            follows(semantics::op_constant(old(self)@, index), r, final(self)@),
    {
        match self.read_constant(index) {
            Some(value) => self.push(value),
            None => Err(Halt::Stuck),
        }
    }

    /// Two strings, as they are displayed, one after the other.
    fn concatenate(&mut self, a: usize, b: usize) -> (r: usize)
        requires
            old(self).wf(),
            a < old(self)@.strings.len(),
            b < old(self)@.strings.len(),
        ensures
            final(self).wf(),
            ({
                let joined = encode_utf8(
                    shown(old(self)@.strings[a as int]) + shown(old(self)@.strings[b as int]),
                );
                final(self)@ == old(self)@.interning(joined) && r == old(self)@.place_of(joined)
            }),
            r < final(self)@.strings.len(),
    {
        let mut text: String = show(self.strings.get(a));
        text.append(show(self.strings.get(b)).as_str());
        self.intern(text.as_str().as_bytes())
    }

    pub(super) fn op_add(&mut self) -> (r: Result<Event, Halt>)
        requires
            old(self).wf(),
        ensures
            final(self).wf(),
            follows(semantics::op_add(old(self)@), r, final(self)@),
    {
        if self.stack_top < 2 {
            return Err(Halt::Stuck);
        }
        match (self.peek(1), self.peek(0)) {
            (Value::Number(a), Value::Number(b)) => {
                self.pop_stack();
                self.pop_stack();
                assert(self@ =~= old(self)@.dropped(2));
                Ok(Event::Ask(Request::Arithmetic { op: ArithmeticOp::Add, a, b }))
            },
            (Value::String(a), Value::String(b)) => {
                self.pop_stack();
                self.pop_stack();
                assert(self@ =~= old(self)@.dropped(2));
                let joined: usize = self.concatenate(a, b);
                self.push_stack(Value::String(joined));
                Ok(Event::Next)
            },
            _ => self.fail("Operands must be two numbers or two strings.".to_owned()),
        }
    }

    /// Takes two numbers off the stack.
    fn pop_numbers(&mut self) -> (r: Result<(u64, u64), Result<Event, Halt>>)
        requires
            old(self).wf(),
        ensures
            final(self).wf(),
            match semantics::operands(old(self)@) {
                Ok(pair) => r == Ok::<(u64, u64), Result<Event, Halt>>(pair) && final(self)@
                    == old(self)@.dropped(2) && old(self)@.top >= 2,
                Err(flow) => r matches Err(end) && follows(flow, end, final(self)@),
            },
    {
        if self.stack_top < 1 {
            return Err(Err(Halt::Stuck));
        }
        let b: u64 = match self.pop_stack() {
            Value::Number(b) => b,
            _ => {
                return Err(self.fail("Operands must be numbers.".to_owned()));
            },
        };
        if self.stack_top < 1 {
            return Err(Err(Halt::Stuck));
        }
        let top: Value = self.pop_stack();
        assert(self@ =~= old(self)@.dropped(2));
        match top {
            Value::Number(a) => Ok((a, b)),
            _ => Err(self.fail("Operands must be numbers.".to_owned())),
        }
    }

    pub(super) fn op_arithmetic(&mut self, op: ArithmeticOp) -> (r: Result<Event, Halt>)
        requires
            old(self).wf(),
        ensures
            final(self).wf(),
            follows(semantics::op_arithmetic(old(self)@, op), r, final(self)@),
    {
        match self.pop_numbers() {
            Ok((a, b)) => Ok(Event::Ask(Request::Arithmetic { op, a, b })),
            Err(end) => end,
        }
    }

    pub(super) fn op_greater(&mut self) -> (r: Result<Event, Halt>)
        requires
            old(self).wf(),
        ensures
            final(self).wf(),
            follows(semantics::op_greater(old(self)@), r, final(self)@),
    {
        match self.pop_numbers() {
            Ok((a, b)) => {
                self.push_stack(Value::Boolean(number_lt(b, a)));
                Ok(Event::Next)
            },
            Err(end) => end,
        }
    }

    pub(super) fn op_less(&mut self) -> (r: Result<Event, Halt>)
        requires
            old(self).wf(),
        ensures
            final(self).wf(),
            follows(semantics::op_less(old(self)@), r, final(self)@),
    {
        match self.pop_numbers() {
            Ok((a, b)) => {
                self.push_stack(Value::Boolean(number_lt(a, b)));
                Ok(Event::Next)
            },
            Err(end) => end,
        }
    }

    pub(super) fn op_negate(&mut self) -> (r: Result<Event, Halt>)
        requires
            old(self).wf(),
        ensures
            final(self).wf(),
            follows(semantics::op_negate(old(self)@), r, final(self)@),
    {
        if self.stack_top < 1 {
            return Err(Halt::Stuck);
        }
        match self.pop_stack() {
            Value::Number(v) => {
                self.push_stack(Value::Number(number_neg(v)));
                Ok(Event::Next)
            },
            _ => self.fail("Operand must be a number.".to_owned()),
        }
    }

    pub(super) fn op_not(&mut self) -> (r: Result<Event, Halt>)
        requires
            old(self).wf(),
        ensures
            final(self).wf(),
            follows(semantics::op_not(old(self)@), r, final(self)@),
    {
        if self.stack_top < 1 {
            return Err(Halt::Stuck);
        }
        let v: Value = self.pop_stack();
        self.push_stack(Value::Boolean(v.is_falsy()));
        Ok(Event::Next)
    }

    pub(super) fn op_equal(&mut self) -> (r: Result<Event, Halt>)
        requires
            old(self).wf(),
        ensures
            final(self).wf(),
            follows(semantics::op_equal(old(self)@), r, final(self)@),
    {
        if self.stack_top < 2 {
            return Err(Halt::Stuck);
        }
        let b: Value = self.pop_stack();
        let a: Value = self.pop_stack();
        assert(self@ =~= old(self)@.dropped(2));
        self.push_stack(Value::Boolean(a.equals(&b)));
        Ok(Event::Next)
    }

    pub(super) fn op_print(&mut self) -> (r: Result<Event, Halt>)
        requires
            old(self).wf(),
        ensures
            final(self).wf(),
            follows(semantics::op_print(old(self)@), r, final(self)@),
    {
        if self.stack_top < 1 {
            return Err(Halt::Stuck);
        }
        Ok(Event::Ask(Request::Print(self.pop_stack())))
    }

    pub(super) fn op_pop(&mut self) -> (r: Result<Event, Halt>)
        requires
            old(self).wf(),
        ensures
            final(self).wf(),
            follows(semantics::op_pop(old(self)@), r, final(self)@),
    {
        if self.stack_top < 1 {
            return Err(Halt::Stuck);
        }
        self.pop_stack();
        Ok(Event::Next)
    }

    pub(super) fn op_define_global(&mut self, index: u8) -> (r: Result<Event, Halt>)
        requires
            old(self).wf(),
            old(self)@.frames.len() > 0,
        ensures
            final(self).wf(),
            follows(semantics::op_define_global(old(self)@, index), r, final(self)@),
    {
        match self.read_constant(index) {
            None => Err(Halt::Stuck),
            Some(Value::String(name)) => {
                if self.stack_top < 1 {
                    return Err(Halt::Stuck);
                }
                self.set_global(name, self.peek(0));
                self.pop_stack();
                Ok(Event::Next)
            },
            Some(_) => plain_error("cannot convert to string"),
        }
    }

    fn undefined_variable(&self, name: usize) -> (r: Result<Event, Halt>)
        requires
            self.wf(),
            name < self@.strings.len(),
        ensures
            follows(
                semantics::fail(self@, semantics::undefined_variable(self@, name)),
                r,
                self@,
            ),
    {
        self.fail(join3("Undefined variable '", show(self.strings.get(name)).as_str(), "'."))
    }

    pub(super) fn op_get_global(&mut self, index: u8) -> (r: Result<Event, Halt>)
        requires
            old(self).wf(),
            old(self)@.frames.len() > 0,
        ensures
            final(self).wf(),
            follows(semantics::op_get_global(old(self)@, index), r, final(self)@),
    {
        match self.read_constant(index) {
            None => Err(Halt::Stuck),
            Some(Value::String(name)) => match self.get_global(name) {
                Some(value) => self.push(value),
                None => self.undefined_variable(name),
            },
            Some(_) => plain_error("cannot convert to string"),
        }
    }

    pub(super) fn op_set_global(&mut self, index: u8) -> (r: Result<Event, Halt>)
        requires
            old(self).wf(),
            old(self)@.frames.len() > 0,
        ensures
            final(self).wf(),
            follows(semantics::op_set_global(old(self)@, index), r, final(self)@),
    {
        match self.read_constant(index) {
            None => Err(Halt::Stuck),
            Some(Value::String(name)) => {
                if self.get_global(name).is_none() {
                    return self.undefined_variable(name);
                }
                if self.stack_top < 1 {
                    return Err(Halt::Stuck);
                }
                self.set_global(name, self.peek(0));
                Ok(Event::Next)
            },
            Some(_) => plain_error("cannot convert to string"),
        }
    }

    pub(super) fn op_get_local(&mut self, slot: u8) -> (r: Result<Event, Halt>)
        requires
            old(self).wf(),
            old(self)@.frames.len() > 0,
        ensures
            final(self).wf(),
            follows(semantics::op_get_local(old(self)@, slot), r, final(self)@),
    {
        let i: usize = self.current_frame().slot_start + slot as usize;
        if i >= STACK_MAX_SIZE {
            return Err(Halt::Stuck);
        }
        let value: Value = self.stack_get(i);
        self.push(value)
    }

    pub(super) fn op_set_local(&mut self, slot: u8) -> (r: Result<Event, Halt>)
        requires
            old(self).wf(),
            old(self)@.frames.len() > 0,
        ensures
            final(self).wf(),
            follows(semantics::op_set_local(old(self)@, slot), r, final(self)@),
    {
        let i: usize = self.current_frame().slot_start + slot as usize;
        if self.stack_top < 1 || i >= STACK_MAX_SIZE {
            return Err(Halt::Stuck);
        }
        self.stack_set(i, self.peek(0));
        Ok(Event::Next)
    }

    pub(super) fn op_jump(&mut self, offset: u16) -> (r: Result<Event, Halt>)
        requires
            old(self).wf(),
            old(self)@.frames.len() > 0,
        ensures
            final(self).wf(),
            follows(semantics::op_jump(old(self)@, offset), r, final(self)@),
    {
        match self.current_frame().ip.checked_add(offset as usize) {
            Some(ip) => {
                self.set_ip(ip);
                Ok(Event::Next)
            },
            None => Err(Halt::Stuck),
        }
    }

    pub(super) fn op_jump_if_false(&mut self, offset: u16) -> (r: Result<Event, Halt>)
        requires
            old(self).wf(),
            old(self)@.frames.len() > 0,
        ensures
            final(self).wf(),
            follows(semantics::op_jump_if_false(old(self)@, offset), r, final(self)@),
    {
        if self.stack_top < 1 {
            return Err(Halt::Stuck);
        }
        if self.peek(0).is_falsy() {
            self.op_jump(offset)
        } else {
            Ok(Event::Next)
        }
    }

    pub(super) fn op_loop(&mut self, offset: u16) -> (r: Result<Event, Halt>)
        requires
            old(self).wf(),
            old(self)@.frames.len() > 0,
        ensures
            final(self).wf(),
            follows(semantics::op_loop(old(self)@, offset), r, final(self)@),
    {
        let ip: usize = self.current_frame().ip;
        if ip < offset as usize {
            return Err(Halt::Stuck);
        }
        self.set_ip(ip - offset as usize);
        Ok(Event::Next)
    }

    pub(super) fn op_call(&mut self, arg_count: u8) -> (r: Result<Event, Halt>)
        requires
            old(self).wf(),
        ensures
            final(self).wf(),
            follows(semantics::op_call(old(self)@, arg_count), r, final(self)@),
    {
        if self.stack_top < arg_count as usize + 1 {
            return Err(Halt::Stuck);
        }
        let callee: Value = self.peek(arg_count as usize);
        self.call_value(callee, arg_count)
    }

    /// A captured variable of the running closure.
    pub(super) fn captured_here(&self, slot: usize) -> (r: Option<usize>)
        requires
            self.wf(),
            self@.frames.len() > 0,
        ensures
            r == (if slot < semantics::captured_here(self@).len() {
                Some(semantics::captured_here(self@)[slot as int])
            } else {
                None
            }),
            r matches Some(u) ==> u < self@.upvalues.len(),
    {
        let closure: usize = self.current_frame().closure;
        assert(self@.closure_ok(self@.closures[closure as int]));
        let upvalues: &Vec<usize> = &self.closures[closure].upvalues;
        if slot < upvalues.len() {
            assert(self@.closures[closure as int].upvalues[slot as int] < self@.upvalues.len());
            Some(upvalues[slot])
        } else {
            None
        }
    }

    pub(super) fn op_get_upvalue(&mut self, slot: u8) -> (r: Result<Event, Halt>)
        requires
            old(self).wf(),
            old(self)@.frames.len() > 0,
        ensures
            final(self).wf(),
            follows(semantics::op_get_upvalue(old(self)@, slot), r, final(self)@),
    {
        match self.captured_here(slot as usize) {
            None => Err(Halt::Stuck),
            Some(u) => {
                let upvalue: UpvalueObj = self.upvalues[u];
                assert(upvalue@ == self@.upvalues[u as int]);
                match upvalue.closed {
                    Some(closed) => self.push(closed),
                    None => {
                        if upvalue.location >= STACK_MAX_SIZE {
                            return Err(Halt::Stuck);
                        }
                        let value: Value = self.stack_get(upvalue.location);
                        self.push(value)
                    },
                }
            },
        }
    }

    pub(super) fn op_set_upvalue(&mut self, slot: u8) -> (r: Result<Event, Halt>)
        requires
            old(self).wf(),
            old(self)@.frames.len() > 0,
        ensures
            final(self).wf(),
            follows(semantics::op_set_upvalue(old(self)@, slot), r, final(self)@),
    {
        match self.captured_here(slot as usize) {
            None => Err(Halt::Stuck),
            Some(u) => {
                if self.stack_top < slot as usize + 1 {
                    return Err(Halt::Stuck);
                }
                let stack_position: usize = self.upvalues[u].location;
                assert(stack_position == self@.upvalues[u as int].location);
                if stack_position >= STACK_MAX_SIZE {
                    return Err(Halt::Stuck);
                }
                let value: Value = self.peek(slot as usize);
                self.set_upvalue(u, slot as usize, value);
                self.stack_set(stack_position, value);
                Ok(Event::Next)
            },
        }
    }

    pub(super) fn op_close_upvalue(&mut self) -> (r: Result<Event, Halt>)
        requires
            old(self).wf(),
        ensures
            final(self).wf(),
            follows(semantics::op_close_upvalue(old(self)@), r, final(self)@),
    {
        if self.stack_top < 1 {
            return Err(Halt::Stuck);
        }
        proof {
            semantics::close_keeps_stack(self@, self@.top - 1);
        }
        if !self.close_upvalues(self.stack_top - 1) {
            return Err(Halt::Stuck);
        }
        self.pop_stack();
        Ok(Event::Next)
    }

    pub(super) fn op_class(&mut self, index: u8) -> (r: Result<Event, Halt>)
        requires
            old(self).wf(),
            old(self)@.frames.len() > 0,
        ensures
            final(self).wf(),
            follows(semantics::op_class(old(self)@, index), r, final(self)@),
    {
        match self.read_name(index) {
            Some(name) => {
                let class: usize = self.new_class(name);
                self.push(Value::Class(class))
            },
            None => Err(Halt::Stuck),
        }
    }

    pub(super) fn op_get_property(&mut self, index: u8) -> (r: Result<Event, Halt>)
        requires
            old(self).wf(),
            old(self)@.frames.len() > 0,
        ensures
            final(self).wf(),
            follows(semantics::op_get_property(old(self)@, index), r, final(self)@),
    {
        if self.stack_top < 1 {
            return Err(Halt::Stuck);
        }
        match self.peek(0) {
            Value::Instance(instance) => match self.read_name(index) {
                Some(name) => match self.get_field(instance, name) {
                    Some(property) => {
                        self.pop_stack();
                        self.push_stack(property);
                        Ok(Event::Next)
                    },
                    None => {
                        assert(self@.instances[instance as int].class < self@.classes.len());
                        let class: usize = self.instances[instance].class;
                        self.bind_method(class, name)
                    },
                },
                None => Err(Halt::Stuck),
            },
            _ => self.fail("Only instances have properties.".to_owned()),
        }
    }

    pub(super) fn op_set_property(&mut self, index: u8) -> (r: Result<Event, Halt>)
        requires
            old(self).wf(),
            old(self)@.frames.len() > 0,
        ensures
            final(self).wf(),
            follows(semantics::op_set_property(old(self)@, index), r, final(self)@),
    {
        if self.stack_top < 2 {
            return Err(Halt::Stuck);
        }
        match self.peek(1) {
            Value::Instance(instance) => match self.read_name(index) {
                Some(name) => {
                    self.set_field(instance, name, self.peek(0));
                    let ghost set = self@;
                    let value: Value = self.pop_stack();
                    self.pop_stack();
                    assert(self@ =~= set.dropped(2));
                    self.push_stack(value);
                    Ok(Event::Next)
                },
                None => Err(Halt::Stuck),
            },
            _ => self.fail("Only instances have fields.".to_owned()),
        }
    }

    /// Gives the class below the topmost value that value as a method.
    fn define_method(&mut self, name: usize) -> (r: Result<Event, Halt>)
        requires
            old(self).wf(),
            name < old(self)@.strings.len(),
        ensures
            final(self).wf(),
            follows(semantics::define_method(old(self)@, name), r, final(self)@),
    {
        if self.stack_top < 2 {
            return Err(Halt::Stuck);
        }
        match self.peek(1) {
            Value::Class(class) => {
                self.set_method(class, name, self.peek(0));
                self.pop_stack();
                Ok(Event::Next)
            },
            _ => Err(Halt::Stuck),
        }
    }

    pub(super) fn op_method(&mut self, index: u8) -> (r: Result<Event, Halt>)
        requires
            old(self).wf(),
            old(self)@.frames.len() > 0,
        ensures
            final(self).wf(),
            follows(semantics::op_method(old(self)@, index), r, final(self)@),
    {
        match self.read_name(index) {
            Some(name) => self.define_method(name),
            None => Err(Halt::Stuck),
        }
    }

    pub(super) fn op_invoke(&mut self, index: u8, arg_count: u8) -> (r: Result<Event, Halt>)
        requires
            old(self).wf(),
            old(self)@.frames.len() > 0,
        ensures
            final(self).wf(),
            follows(semantics::op_invoke(old(self)@, index, arg_count), r, final(self)@),
    {
        match self.read_name(index) {
            Some(name) => self.invoke(name, arg_count),
            None => Err(Halt::Stuck),
        }
    }

    pub(super) fn op_get_super(&mut self, index: u8) -> (r: Result<Event, Halt>)
        requires
            old(self).wf(),
            old(self)@.frames.len() > 0,
        ensures
            final(self).wf(),
            follows(semantics::op_get_super(old(self)@, index), r, final(self)@),
    {
        match self.read_name(index) {
            Some(name) => {
                if self.stack_top < 1 {
                    return Err(Halt::Stuck);
                }
                match self.pop_stack() {
                    Value::Class(superclass) => self.bind_method(superclass, name),
                    _ => plain_error("cannot convert to class"),
                }
            },
            None => Err(Halt::Stuck),
        }
    }

    pub(super) fn op_super_invoke(&mut self, index: u8, arg_count: u8) -> (r: Result<
        Event,
        Halt,
    >)
        requires
            old(self).wf(),
            old(self)@.frames.len() > 0,
        ensures
            final(self).wf(),
            follows(semantics::op_super_invoke(old(self)@, index, arg_count), r, final(self)@),
    {
        match self.read_name(index) {
            Some(name) => {
                if self.stack_top < 1 {
                    return Err(Halt::Stuck);
                }
                match self.pop_stack() {
                    Value::Class(superclass) => self.invoke_from_class(
                        superclass,
                        name,
                        arg_count,
                    ),
                    _ => plain_error("cannot convert to class"),
                }
            },
            None => Err(Halt::Stuck),
        }
    }

    pub(super) fn op_prompt(&mut self) -> (r: Result<Event, Halt>)
        requires
            old(self).wf(),
        ensures
            final(self).wf(),
            follows(semantics::op_prompt(old(self)@), r, final(self)@),
    {
        if self.stack_top < 1 {
            return Err(Halt::Stuck);
        }
        match self.pop_stack() {
            Value::String(s) => Ok(Event::Ask(Request::Prompt(copy_bytes(self.strings.get(s))))),
            _ => Err(Halt::Stuck),
        }
    }

    pub(super) fn op_inherit(&mut self) -> (r: Result<Event, Halt>)
        requires
            old(self).wf(),
        ensures
            final(self).wf(),
            follows(semantics::op_inherit(old(self)@), r, final(self)@),
    {
        if self.stack_top < 2 {
            return Err(Halt::Stuck);
        }
        match self.peek(1) {
            Value::Class(superclass) => match self.peek(0) {
                Value::Class(subclass) => {
                    if subclass == superclass {
                        return Err(Halt::Stuck);
                    }
                    self.inherit(superclass, subclass);
                    self.pop_stack();
                    Ok(Event::Next)
                },
                _ => plain_error("cannot convert to class"),
            },
            _ => self.fail("Superclass must be a class.".to_owned()),
        }
    }
}

} // verus!
