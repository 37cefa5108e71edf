//! Closures, returns and the choice of instructions.

use vstd::prelude::*;

use super::calls::copy_bytes;
use super::State;
use crate::chunk::{OpCode, Upvalue};
use crate::event::{
    follows, lists_fields, stands_for, stands_for_field, stands_for_fields, stands_for_scalar,
    Event, Halt, ReturnValue,
};
use crate::machine::{CallFrame, Machine};
use crate::object::Closure;
use crate::semantics;
use crate::semantics::ArithmeticOp;
use crate::table::table_entries;
use crate::value::Value;

verus! {

/// A list made of the entries of a table holds each of them once.
proof fn entries_stand_for_fields(
    entries: Seq<(usize, Value)>,
    list: Seq<(Vec<u8>, ReturnValue)>,
    m: Machine,
    fields: Map<usize, Value>,
)
    requires
        entries.len() == list.len(),
        forall|i: int|
            0 <= i < entries.len() ==> fields.contains_key((#[trigger] entries[i]).0)
                && fields[entries[i].0] == entries[i].1,
        forall|name: usize| #[trigger]
            fields.contains_key(name) ==> exists|i: int|
                0 <= i < entries.len() && (#[trigger] entries[i]).0 == name,
        forall|i: int, j: int|
            0 <= i < j < entries.len() ==> (#[trigger] entries[i]).0 != (#[trigger] entries[j]).0,
        forall|i: int|
            0 <= i < list.len() ==> (#[trigger] list[i]).0@ == m.strings[entries[i].0 as int]
                && stands_for_scalar(list[i].1, m, entries[i].1),
    ensures
        stands_for_fields(list, m, fields),
{
    let names = Seq::new(entries.len(), |i: int| entries[i].0);
    assert forall|i: int| 0 <= i < list.len() implies stands_for_field(
        #[trigger] list[i],
        m,
        fields,
        names[i],
    ) by {
        let entry = entries[i];
    }
    assert forall|name: usize| fields.contains_key(name) implies #[trigger] names.to_set().contains(
        name,
    ) by {
        let i = choose|i: int| 0 <= i < entries.len() && (#[trigger] entries[i]).0 == name;
        assert(names[i] == name);
    }
    assert forall|name: usize| #[trigger] names.to_set().contains(name) implies fields.contains_key(
        name,
    ) by {
        let i = choose|i: int| 0 <= i < names.len() && names[i] == name;
        let entry = entries[i];
    }
    assert(names.to_set() =~= fields.dom());
    assert(names.no_duplicates()) by {
        assert forall|i: int, j: int|
            0 <= i < names.len() && 0 <= j < names.len() && i != j implies names[i]
            != names[j] by {
            let a = entries[i];
            let b = entries[j];
        }
    }
    assert(lists_fields(list, m, fields, names));
}

impl State {
    /// Captures the variables of a new closure of the function; `None` where one of
    /// them is not there.
    fn capture_all(&mut self, function: usize) -> (r: Option<Vec<usize>>)
        requires
            old(self).wf(),
            old(self)@.frames.len() > 0,
            function < old(self)@.functions.len(),
        ensures
            final(self).wf(),
            match semantics::capture_all(
                old(self)@,
                old(self)@.functions[function as int].upvalues@,
                Seq::empty(),
            ) {
                Some((m, upvalues)) => r matches Some(v) && v@ == upvalues && final(self)@ == m
                    && m.functions == old(self)@.functions && (forall|i: int|
                    0 <= i < v@.len() ==> (#[trigger] v@[i]) < m.upvalues.len()),
                None => r is None,
            },
    {
        let ghost list = self@.functions[function as int].upvalues@;
        let n: usize = self.functions[function].upvalues.len();
        let frame: CallFrame = self.current_frame();
        let mut done: Vec<usize> = Vec::new();
        assert(done@ =~= Seq::<usize>::empty());
        while done.len() < n
            invariant
                self.wf(),
                function < self@.functions.len(),
                self@.functions == old(self)@.functions,
                self@.frames.len() > 0,
                self@.frame() == frame,
                list == self@.functions[function as int].upvalues@,
                n == list.len(),
                done@.len() <= n,
                forall|i: int|
                    0 <= i < done@.len() ==> (#[trigger] done@[i]) < self@.upvalues.len(),
                semantics::capture_all(self@, list, done@) == semantics::capture_all(
                    old(self)@,
                    list,
                    Seq::empty(),
                ),
            decreases n - done@.len(),
        {
            let item: Upvalue = self.functions[function].upvalues[done.len()];
            if item.is_local {
                match frame.slot_start.checked_add(item.index) {
                    Some(slot) => {
                        let upvalue: usize = self.capture_upvalue(slot);
                        done.push(upvalue);
                    },
                    None => {
                        return None;
                    },
                }
            } else {
                match self.captured_here(item.index) {
                    Some(upvalue) => {
                        done.push(upvalue);
                    },
                    None => {
                        return None;
                    },
                }
            }
        }
        Some(done)
    }

    fn op_closure(&mut self, chunk_id: u8) -> (r: Result<Event, Halt>)
        requires
            old(self).wf(),
            old(self)@.frames.len() > 0,
        ensures
            final(self).wf(),
            follows(semantics::op_closure(old(self)@, chunk_id), r, final(self)@),
    {
        match self.find_chunk(chunk_id as usize) {
            None => Err(Halt::Stuck),
            Some(function) => match self.capture_all(function) {
                None => Err(Halt::Stuck),
                Some(upvalues) => {
                    let closure: usize = self.new_closure(Closure { function, upvalues });
                    self.push(Value::Closure(closure))
                },
            },
        }
    }

    /// The function that code calls by a number, where there is one.
    pub(super) fn find_chunk(&self, chunk_id: usize) -> (r: Option<usize>)
        requires
            self.wf(),
        ensures
            r == (if self@.chunks.contains_key(chunk_id) {
                Some(self@.chunks[chunk_id])
            } else {
                None
            }),
            r matches Some(f) ==> f < self@.functions.len(),
    {
        assert(self@.chunks.contains_key(chunk_id) ==> self@.chunks[chunk_id]
            < self@.functions.len());
        match self.chunks.get(&chunk_id) {
            Some(function) => Some(*function),
            None => None,
        }
    }

    /// A value other than an instance, free of this machine.
    fn scalar(&self, value: Value) -> (r: ReturnValue)
        requires
            self.wf(),
            self@.value_ok(value),
        ensures
            stands_for_scalar(r, self@, value),
    {
        match value {
            Value::Nil => ReturnValue::Nil,
            Value::Boolean(b) => ReturnValue::Boolean(b),
            Value::Number(n) => ReturnValue::Number(n),
            Value::String(s) => ReturnValue::String(copy_bytes(self.strings.get(s))),
            _ => ReturnValue::Opaque,
        }
    }

    /// The names and values of an instance's fields.
    fn object(&self, instance: usize) -> (r: Vec<(Vec<u8>, ReturnValue)>)
        requires
            self.wf(),
            instance < self@.instances.len(),
        ensures
            stands_for_fields(r@, self@, self@.instances[instance as int].fields),
    {
        let ghost fields = self@.instances[instance as int].fields;
        assert(self@.table_ok(fields));
        let entries: Vec<(usize, Value)> = table_entries(&self.instances[instance].fields);
        let n: usize = entries.len();
        let mut list: Vec<(Vec<u8>, ReturnValue)> = Vec::new();
        let mut i: usize = 0;
        while i < n
            invariant
                self.wf(),
                n == entries@.len(),
                i <= n,
                i == list@.len(),
                self@.table_ok(fields),
                forall|j: int|
                    0 <= j < n ==> fields.contains_key((#[trigger] entries@[j]).0)
                        && fields[entries@[j].0] == entries@[j].1,
                forall|j: int|
                    0 <= j < i ==> (#[trigger] list@[j]).0@ == self@.strings[entries@[j].0 as int]
                        && stands_for_scalar(list@[j].1, self@, entries@[j].1),
            decreases n - i,
        {
            let (name, value): (usize, Value) = entries[i];
            assert(fields.contains_key(entries@[i as int].0));
            list.push((copy_bytes(self.strings.get(name)), self.scalar(value)));
            i = i + 1;
        }
        proof {
            entries_stand_for_fields(entries@, list@, self@, fields);
        }
        list
    }

    /// A value of this machine, free of it.
    pub fn return_value(&self, value: Value) -> (r: ReturnValue)
        requires
            self.wf(),
            self@.value_ok(value),
        ensures
            stands_for(r, self@, value),
    {
        match value {
            Value::Instance(instance) => ReturnValue::Object(self.object(instance)),
            _ => self.scalar(value),
        }
    }

    fn op_return(&mut self, stop: usize) -> (r: Result<Event, Halt>)
        requires
            old(self).wf(),
            old(self)@.frames.len() > 0,
        ensures
            final(self).wf(),
            follows(semantics::op_return(old(self)@, stop as int), r, final(self)@),
    {
        if self.stack_top < 1 {
            return Err(Halt::Stuck);
        }
        let slot_start: usize = self.current_frame().slot_start;
        let value: Value = self.pop_stack();
        proof {
            semantics::close_keeps_stack(self@, slot_start as int);
        }
        if !self.close_upvalues(slot_start) {
            return Err(Halt::Stuck);
        }
        let ghost closed = self@;
        self.frames.pop();
        self.frame_count = self.frame_count - 1;
        let ghost left = Machine { frames: closed.frames.drop_last(), ..closed };
        assert(self@ =~= left);
        if self.frame_count == stop {
            if self.stack_top < 1 {
                return Err(Halt::Stuck);
            }
            self.pop_stack();
            return Ok(Event::Done(self.return_value(value)));
        }
        self.stack_top = slot_start;
        assert(self@ =~= Machine { top: slot_start as int, ..left });
        self.push_stack(value);
        Ok(Event::Next)
    }

    /// Executes an instruction that the innermost call has moved past.
    fn execute(&mut self, op: OpCode, stop: usize) -> (r: Result<Event, Halt>)
        requires
            old(self).wf(),
            old(self)@.frames.len() > 0,
        ensures
            final(self).wf(),
            follows(semantics::execute(old(self)@, op, stop as int), r, final(self)@),
    {
        match op {
            OpCode::Constant(index) => self.op_constant(index),
            OpCode::Add => self.op_add(),
            OpCode::Subtract => self.op_arithmetic(ArithmeticOp::Subtract),
            OpCode::Multiply => self.op_arithmetic(ArithmeticOp::Multiply),
            OpCode::Divide => self.op_arithmetic(ArithmeticOp::Divide),
            OpCode::Negate => self.op_negate(),
            OpCode::Return => self.op_return(stop),
            OpCode::Nil => self.push(Value::Nil),
            OpCode::True => self.push(Value::Boolean(true)),
            OpCode::False => self.push(Value::Boolean(false)),
            OpCode::Not => self.op_not(),
            OpCode::Equal => self.op_equal(),
            OpCode::Greater => self.op_greater(),
            OpCode::Less => self.op_less(),
            OpCode::Print => self.op_print(),
            OpCode::Pop => self.op_pop(),
            OpCode::DefineGlobal(index) => self.op_define_global(index),
            OpCode::GetGlobal(index) => self.op_get_global(index),
            OpCode::SetGlobal(index) => self.op_set_global(index),
            OpCode::GetLocal(slot) => self.op_get_local(slot),
            OpCode::SetLocal(slot) => self.op_set_local(slot),
            OpCode::JumpIfFalse(offset) => self.op_jump_if_false(offset),
            OpCode::Jump(offset) => self.op_jump(offset),
            OpCode::Loop(offset) => self.op_loop(offset),
            OpCode::Call(arg_count) => self.op_call(arg_count),
            OpCode::Closure(chunk_id) => self.op_closure(chunk_id),
            OpCode::GetUpvalue(slot) => self.op_get_upvalue(slot),
            OpCode::SetUpvalue(slot) => self.op_set_upvalue(slot),
            OpCode::CloseUpvalue => self.op_close_upvalue(),
            OpCode::Class(index) => self.op_class(index),
            OpCode::GetProperty(index) => self.op_get_property(index),
            OpCode::SetProperty(index) => self.op_set_property(index),
            OpCode::Method(index) => self.op_method(index),
            OpCode::Invoke(index, arg_count) => self.op_invoke(index, arg_count),
            OpCode::Inherit => self.op_inherit(),
            OpCode::GetSuper(index) => self.op_get_super(index),
            OpCode::SuperInvoke(index, arg_count) => self.op_super_invoke(index, arg_count),
            OpCode::Prompt => self.op_prompt(),
            OpCode::Agent(index) => self.op_constant(index),
        }
    }

    /// Executes the next instruction, if the machine can.
    pub fn try_dispatch_next(&mut self, stop_at_frame_count: usize) -> (r: Result<Event, Halt>)
        requires
            old(self).wf(),
        ensures
            final(self).wf(),
            follows(semantics::dispatch(old(self)@, stop_at_frame_count as int), r, final(self)@),
    {
        match self.next_opcode() {
            Some(op) => self.execute(op, stop_at_frame_count),
            None => Err(Halt::Stuck),
        }
    }
}

} // verus!
