//! What a compiler may do to the machine.

use vstd::prelude::*;
use vstd::string::*;

use super::State;
use crate::chunk::Function;
use crate::machine::Machine;

verus! {

/// The machine as a compiler sees it: it interns the names and the string
/// constants of the code it generates, and puts functions on the heap.
pub struct Context<'a> {
    pub state: &'a mut State,
}

impl<'a> Context<'a> {
    /// The place of the bytes among the interned strings, to which they are added
    /// where they are not there yet.
    pub fn intern(&mut self, s: &[u8]) -> (r: usize)
        requires
            old(self).state.wf(),
        ensures
            final(self).state.wf(),
            final(self).state@ == old(self).state@.interning(s@),
            r == old(self).state@.place_of(s@),
            r < final(self).state@.strings.len(),
            final(self).state@.strings[r as int] == s@,
            *final(final(self).state) == *final(old(self).state),
    {
        self.state.intern(s)
    }

    /// The place of a text among the interned strings.
    pub fn intern_static(&mut self, s: &'static str) -> (r: usize)
        requires
            old(self).state.wf(),
        ensures
            final(self).state.wf(),
            final(self).state@ == old(self).state@.interning(s.spec_bytes()),
            r == old(self).state@.place_of(s.spec_bytes()),
            r < final(self).state@.strings.len(),
            final(self).state@.strings[r as int] == s.spec_bytes(),
            *final(final(self).state) == *final(old(self).state),
    {
        self.state.intern_static(s)
    }

    /// Puts a function on the heap.
    pub(crate) fn new_function(&mut self, function: Function) -> (r: usize)
        requires
            old(self).state.wf(),
            old(self).state@.function_ok(function),
        ensures
            final(self).state.wf(),
            final(self).state@ == (Machine {
                functions: old(self).state@.functions.push(function),
                ..old(self).state@
            }),
            r == old(self).state@.functions.len(),
            *final(final(self).state) == *final(old(self).state),
    {
        self.state.new_function(function)
    }
}

} // verus!
