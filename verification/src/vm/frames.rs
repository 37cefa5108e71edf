//! Call frames and error messages.

use vstd::prelude::*;
use vstd::string::*;
use vstd::utf8::*;

use super::State;
use crate::chunk::{Function, OpCode};
use crate::error::{ErrorView, VmError};
use crate::event::{follows, Event, Halt};
use crate::machine::CallFrame;
use crate::semantics::fail;
use crate::text::{decimal_text, from_utf8};
use crate::value::Value;

verus! {

impl State {
    /// The innermost call.
    pub(super) fn current_frame(&self) -> (r: CallFrame)
        requires
            self.wf(),
            self@.frames.len() > 0,
        ensures
            r == self@.frame(),
            self@.frame_ok(r),
    {
        self.frames[self.frame_count - 1]
    }

    /// The function of a call.
    pub(super) fn function_of(&self, frame: CallFrame) -> (r: &Function)
        requires
            self.wf(),
            self@.frame_ok(frame),
        ensures
            *r == self@.function_of(frame),
            self@.function_ok(*r),
    {
        assert(self@.closure_ok(self@.closures[frame.closure as int]));
        let function: usize = self.closures[frame.closure].function;
        assert(self@.function_ok(self@.functions[function as int]));
        &self.functions[function]
    }

    /// Lets the innermost call go on at another instruction.
    pub(super) fn set_ip(&mut self, ip: usize)
        requires
            old(self).wf(),
            old(self)@.frames.len() > 0,
        ensures
            final(self).wf(),
            final(self)@ == old(self)@.with_ip(ip as int),
    {
        let frame: CallFrame = self.current_frame();
        self.frames.set(
            self.frame_count - 1,
            CallFrame { closure: frame.closure, ip, slot_start: frame.slot_start },
        );
        assert(self@ =~= old(self)@.with_ip(ip as int));
    }

    /// The next instruction of the innermost call, which moves past it; `None`
    /// where there is no call or no instruction.
    pub(super) fn next_opcode(&mut self) -> (r: Option<OpCode>)
        requires
            old(self).wf(),
        ensures
            final(self).wf(),
            match r {
                Some(op) => {
                    &&& old(self)@.frames.len() > 0
                    &&& old(self)@.frame().ip < old(self)@.running().code().len()
                    &&& op == old(self)@.running().code()[old(self)@.frame().ip as int]
                    &&& final(self)@ == old(self)@.with_ip(old(self)@.frame().ip + 1)
                },
                None => {
                    &&& old(self)@.frames.len() == 0 || old(self)@.frame().ip
                        >= old(self)@.running().code().len()
                    &&& final(self)@ == old(self)@
                },
            },
    {
        if self.frame_count == 0 {
            return None;
        }
        let frame: CallFrame = self.current_frame();
        let function: &Function = self.function_of(frame);
        if frame.ip >= function.chunk.code.len() {
            return None;
        }
        let op: OpCode = function.chunk.code[frame.ip];
        self.set_ip(frame.ip + 1);
        Some(op)
    }

    /// A constant of the running function, where it has that many.
    pub(super) fn read_constant(&self, index: u8) -> (r: Option<Value>)
        requires
            self.wf(),
            self@.frames.len() > 0,
        ensures
            r == self@.constant(index),
            r matches Some(v) ==> self@.value_ok(v),
    {
        let function: &Function = self.function_of(self.current_frame());
        let i: usize = index as usize;
        if i < function.chunk.constants.len() {
            assert(self@.value_ok(function.constants()[i as int]));
            Some(function.chunk.constants[i])
        } else {
            None
        }
    }

    /// The name of the function of a call; `None` where it is not text.
    fn frame_name(&self, frame: CallFrame) -> (r: Option<String>)
        requires
            self.wf(),
            self@.frame_ok(frame),
        ensures
            r is Some <==> (self@.function_of(frame).name matches Some(n) ==> valid_utf8(
                self@.strings[n as int],
            )),
            r matches Some(s) ==> s@ == self@.frame_name(frame),
    {
        match self.function_of(frame).name {
            Some(n) => from_utf8(self.strings.get(n)),
            None => Some("script".to_owned()),
        }
    }

    /// Whether the place of a call in its source can be told.
    fn frame_traceable(&self, frame: CallFrame) -> (r: bool)
        requires
            self.wf(),
            self@.frame_ok(frame),
        ensures
            r == self@.frame_traceable(frame),
    {
        let lines: usize = self.function_of(frame).chunk.lines.len();
        1 <= frame.ip && frame.ip <= lines && self.frame_name(frame).is_some()
    }

    /// Whether the places of all calls under way can be told.
    pub(super) fn traceable(&self) -> (r: bool)
        requires
            self.wf(),
        ensures
            r == self@.traceable(),
    {
        let mut i: usize = 0;
        while i < self.frame_count
            invariant
                self.wf(),
                i <= self@.frames.len(),
                self.frame_count == self@.frames.len(),
                forall|j: int| 0 <= j < i ==> self@.frame_traceable(#[trigger] self@.frames[j]),
            decreases self.frame_count - i,
        {
            let frame: CallFrame = self.frames[i];
            assert(frame == self@.frames[i as int]);
            if !self.frame_traceable(frame) {
                return false;
            }
            i = i + 1;
        }
        true
    }

    /// The lines of a message that tell the place of a call.
    fn frame_entry(&self, frame: CallFrame) -> (r: String)
        requires
            self.wf(),
            self@.frame_ok(frame),
            self@.frame_traceable(frame),
        ensures
            r@ == self@.frame_entry(frame),
    {
        let line: u32 = self.function_of(frame).chunk.lines[frame.ip - 1];
        let mut text: String = "\n[line ".to_owned();
        text.append(decimal_text(line).as_str());
        text.append("] in ");
        match self.frame_name(frame) {
            Some(name) => {
                text.append(name.as_str());
            },
            None => {},
        }
        text.append("\n");
        text
    }

    /// An error of the program, with the places of all calls under way.
    pub(super) fn runtime_error(&self, message: String) -> (r: VmError)
        requires
            self.wf(),
            self@.traceable(),
        ensures
            r@ == ErrorView::RuntimeError(self@.trace(message@)),
    {
        let ghost start = message@;
        let mut text: String = message;
        let mut i: usize = self.frame_count;
        while i > 0
            invariant
                self.wf(),
                self@.traceable(),
                i <= self@.frames.len(),
                self@.trace(start) == self@.trace_from(text@, i as int),
            decreases i,
        {
            i = i - 1;
            let frame: CallFrame = self.frames[i];
            assert(frame == self@.frames[i as int]);
            text.append(self.frame_entry(frame).as_str());
        }
        VmError::RuntimeError(text)
    }

    /// Ends with a runtime error, where the places of all calls under way can be told.
    pub(super) fn fail(&self, message: String) -> (r: Result<Event, Halt>)
        requires
            self.wf(),
        ensures
            follows(fail(self@, message@), r, self@),
    {
        if self.traceable() {
            Err(Halt::Error(self.runtime_error(message)))
        } else {
            Err(Halt::Stuck)
        }
    }
}

} // verus!
