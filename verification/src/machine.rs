//! The machine as contracts speak of it.
//!
//! A `Machine` holds what a running program can tell apart: the slots of the
//! value stack, the call frames, the heap, the interned strings, the globals and
//! the list of captured variables that still live on the stack.

use vstd::prelude::*;
use vstd::utf8::*;

use crate::chunk::Function;
use crate::object::{BoundMethod, ClassView, ClosureView, InstanceView, UpvalueView};
use crate::string::{distinct, interned, interned_at};
use crate::text::decimal;
use crate::value::Value;

verus! {

/// The number of slots of the value stack.
pub const STACK_MAX_SIZE: usize = 4096;

/// The number of calls that can be under way at once.
pub const FRAME_MAX_SIZE: usize = 64;

/// A call under way: the closure, its next instruction, and the first of its
/// stack slots.
#[derive(Clone, Copy, Debug)]
pub struct CallFrame {
    pub closure: usize,
    pub ip: usize,
    pub slot_start: usize,
}

/// The state of a machine.
#[verifier::ext_equal]
pub struct Machine {
    /// Every slot of the value stack, those above the top included.
    pub stack: Seq<Value>,
    /// How many of the slots are in use.
    pub top: int,
    /// The calls under way, the innermost last.
    pub frames: Seq<CallFrame>,
    pub strings: Seq<Seq<u8>>,
    pub globals: Map<usize, Value>,
    /// The functions of the program, by the number that code calls them by.
    pub chunks: Map<usize, usize>,
    pub functions: Seq<Function>,
    pub closures: Seq<ClosureView>,
    pub upvalues: Seq<UpvalueView>,
    /// The captured variables that still live on the stack, in the order in which
    /// they are searched.
    pub open: Seq<usize>,
    pub classes: Seq<ClassView>,
    pub instances: Seq<InstanceView>,
    pub bound_methods: Seq<BoundMethod>,
}

impl Machine {
    /// Whether what the value refers to is there.
    pub open spec fn value_ok(self, v: Value) -> bool {
        match v {
            Value::String(s) => s < self.strings.len(),
            Value::Closure(c) => c < self.closures.len(),
            Value::Class(c) => c < self.classes.len(),
            Value::Instance(i) => i < self.instances.len(),
            Value::BoundMethod(b) => b < self.bound_methods.len(),
            _ => true,
        }
    }

    /// Whether the names of a table are strings and its values refer to what is there.
    pub open spec fn table_ok(self, t: Map<usize, Value>) -> bool {
        forall|k: usize| #[trigger]
            t.contains_key(k) ==> k < self.strings.len() && self.value_ok(t[k])
    }

    pub open spec fn values_ok(self, s: Seq<Value>) -> bool {
        forall|i: int| 0 <= i < s.len() ==> self.value_ok(#[trigger] s[i])
    }

    /// Whether a function's constants and name refer to what is there.
    pub open spec fn function_ok(self, f: Function) -> bool {
        &&& self.values_ok(f.constants())
        &&& f.name matches Some(n) ==> n < self.strings.len()
    }

    pub open spec fn closure_ok(self, c: ClosureView) -> bool {
        &&& c.function < self.functions.len()
        &&& forall|i: int|
            0 <= i < c.upvalues.len() ==> (#[trigger] c.upvalues[i]) < self.upvalues.len()
    }

    pub open spec fn frame_ok(self, f: CallFrame) -> bool {
        f.closure < self.closures.len() && f.slot_start < STACK_MAX_SIZE
    }

    pub open spec fn stack_wf(self) -> bool {
        &&& self.stack.len() == STACK_MAX_SIZE
        &&& 0 <= self.top <= STACK_MAX_SIZE
        &&& self.values_ok(self.stack)
    }

    pub open spec fn frames_wf(self) -> bool {
        &&& self.frames.len() <= FRAME_MAX_SIZE
        &&& forall|i: int| 0 <= i < self.frames.len() ==> self.frame_ok(#[trigger] self.frames[i])
    }

    pub open spec fn code_wf(self) -> bool {
        &&& forall|i: int|
            0 <= i < self.functions.len() ==> self.function_ok(#[trigger] self.functions[i])
        &&& forall|k: usize| #[trigger]
            self.chunks.contains_key(k) ==> self.chunks[k] < self.functions.len()
    }

    pub open spec fn upvalues_wf(self) -> bool {
        &&& forall|i: int|
            0 <= i < self.upvalues.len() ==> ((#[trigger] self.upvalues[i]).closed matches Some(v)
                ==> self.value_ok(v))
        &&& forall|i: int|
            0 <= i < self.open.len() ==> (#[trigger] self.open[i]) < self.upvalues.len()
    }

    pub open spec fn objects_wf(self) -> bool {
        &&& forall|i: int|
            0 <= i < self.closures.len() ==> self.closure_ok(#[trigger] self.closures[i])
        &&& forall|i: int|
            0 <= i < self.classes.len() ==> self.table_ok((#[trigger] self.classes[i]).methods)
        &&& forall|i: int|
            0 <= i < self.instances.len() ==> (#[trigger] self.instances[i]).class
                < self.classes.len() && self.table_ok(self.instances[i].fields)
        &&& forall|i: int|
            0 <= i < self.bound_methods.len() ==> self.value_ok(
                (#[trigger] self.bound_methods[i]).receiver,
            ) && self.bound_methods[i].method < self.closures.len()
    }

    /// Nothing refers to what is not there, no string is interned twice, and the
    /// stacks are within their limits.
    pub open spec fn valid(self) -> bool {
        &&& self.stack_wf()
        &&& self.frames_wf()
        &&& self.code_wf()
        &&& self.upvalues_wf()
        &&& self.objects_wf()
        &&& self.table_ok(self.globals)
        &&& distinct(self.strings)
    }

    /// The machine is valid, and no captured variable stands in the list twice.
    pub open spec fn wf(self) -> bool {
        &&& self.valid()
        &&& self.open.no_duplicates()
    }

    /// A machine before any program is loaded.
    pub open spec fn blank() -> Machine {
        Machine {
            stack: Seq::new(STACK_MAX_SIZE as nat, |i: int| Value::Nil),
            top: 0,
            frames: Seq::empty(),
            strings: Seq::empty(),
            globals: Map::empty(),
            chunks: Map::empty(),
            functions: Seq::empty(),
            closures: Seq::empty(),
            upvalues: Seq::empty(),
            open: Seq::empty(),
            classes: Seq::empty(),
            instances: Seq::empty(),
            bound_methods: Seq::empty(),
        }
    }

    // ---- The value stack ----

    /// The value that lies `distance` below the topmost one.
    pub open spec fn peek(self, distance: int) -> Value {
        self.stack[self.top - 1 - distance]
    }

    pub open spec fn pushed(self, v: Value) -> Machine {
        Machine { stack: self.stack.update(self.top, v), top: self.top + 1, ..self }
    }

    /// The machine with the `n` topmost values taken off.
    pub open spec fn dropped(self, n: int) -> Machine {
        Machine { top: self.top - n, ..self }
    }

    pub open spec fn with_slot(self, slot: int, v: Value) -> Machine {
        Machine { stack: self.stack.update(slot, v), ..self }
    }

    // ---- Calls ----

    /// The innermost call.
    pub open spec fn frame(self) -> CallFrame {
        self.frames.last()
    }

    pub open spec fn function_of(self, f: CallFrame) -> Function {
        self.functions[self.closures[f.closure as int].function as int]
    }

    /// The function of the innermost call.
    pub open spec fn running(self) -> Function {
        self.function_of(self.frame())
    }

    /// The machine with the innermost call about to execute instruction `ip`.
    pub open spec fn with_ip(self, ip: int) -> Machine {
        Machine {
            frames: self.frames.update(
                self.frames.len() - 1,
                CallFrame { ip: ip as usize, ..self.frame() },
            ),
            ..self
        }
    }

    /// A constant of the running function, where it has that many.
    pub open spec fn constant(self, index: u8) -> Option<Value> {
        if index < self.running().constants().len() {
            Some(self.running().constants()[index as int])
        } else {
            None
        }
    }

    // ---- Strings ----

    pub open spec fn interning(self, bytes: Seq<u8>) -> Machine {
        Machine { strings: interned(self.strings, bytes), ..self }
    }

    /// The place that the bytes have among the strings once they are interned.
    pub open spec fn place_of(self, bytes: Seq<u8>) -> usize {
        interned_at(self.strings, bytes) as usize
    }

    // ---- The heap ----

    pub open spec fn with_closure(self, c: ClosureView) -> Machine {
        Machine { closures: self.closures.push(c), ..self }
    }

    pub open spec fn with_class(self, c: ClassView) -> Machine {
        Machine { classes: self.classes.push(c), ..self }
    }

    pub open spec fn with_instance(self, i: InstanceView) -> Machine {
        Machine { instances: self.instances.push(i), ..self }
    }

    pub open spec fn with_bound_method(self, b: BoundMethod) -> Machine {
        Machine { bound_methods: self.bound_methods.push(b), ..self }
    }

    pub open spec fn with_upvalue(self, place: int, u: UpvalueView) -> Machine {
        Machine { upvalues: self.upvalues.update(place, u), ..self }
    }

    pub open spec fn with_methods(self, class: int, methods: Map<usize, Value>) -> Machine {
        Machine {
            classes: self.classes.update(class, ClassView { methods, ..self.classes[class] }),
            ..self
        }
    }

    pub open spec fn with_fields(self, instance: int, fields: Map<usize, Value>) -> Machine {
        Machine {
            instances: self.instances.update(
                instance,
                InstanceView { fields, ..self.instances[instance] },
            ),
            ..self
        }
    }

    pub open spec fn with_global(self, name: usize, v: Value) -> Machine {
        Machine { globals: self.globals.insert(name, v), ..self }
    }

    // ---- Error messages ----

    /// Whether the place of a call in its source can be told: it has executed an
    /// instruction, that instruction has a line, and the name of its function is text.
    pub open spec fn frame_traceable(self, f: CallFrame) -> bool {
        &&& 1 <= f.ip <= self.function_of(f).lines().len()
        &&& self.function_of(f).name matches Some(n) ==> valid_utf8(self.strings[n as int])
    }

    /// Whether the places of all calls under way can be told.
    pub open spec fn traceable(self) -> bool {
        forall|i: int|
            0 <= i < self.frames.len() ==> self.frame_traceable(#[trigger] self.frames[i])
    }

    /// The name of the function of a call.
    pub open spec fn frame_name(self, f: CallFrame) -> Seq<char> {
        match self.function_of(f).name {
            Some(n) => decode_utf8(self.strings[n as int]),
            None => "script"@,
        }
    }

    /// The lines of a message that tell the place of a call.
    pub open spec fn frame_entry(self, f: CallFrame) -> Seq<char> {
        "\n[line "@ + decimal(self.function_of(f).lines()[f.ip - 1] as nat) + "] in "@
            + self.frame_name(f) + "\n"@
    }

    /// A text followed by the places of the outermost `n` calls, the innermost of
    /// them first.
    pub open spec fn trace_from(self, text: Seq<char>, n: int) -> Seq<char>
        decreases n,
    {
        if n <= 0 {
            text
        } else {
            self.trace_from(text + self.frame_entry(self.frames[n - 1]), n - 1)
        }
    }

    /// A message followed by the places of all calls under way.
    pub open spec fn trace(self, message: Seq<char>) -> Seq<char> {
        self.trace_from(message, self.frames.len() as int)
    }
}

} // verus!
