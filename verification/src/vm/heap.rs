//! The heap, the interned strings and the globals.

use vstd::prelude::*;
use vstd::string::*;

use super::State;
use crate::chunk::Function;
use crate::machine::Machine;
use crate::object::{BoundMethod, Class, ClassView, Closure, Instance, InstanceView};
use crate::string::interning;
use crate::table::{new_table, table_extend, table_get, table_insert, Table};
use crate::value::Value;

verus! {

impl State {
    /// The place of the bytes among the interned strings, to which they are added
    /// where they are not there yet.
    pub fn intern(&mut self, s: &[u8]) -> (r: usize)
        requires
            old(self).wf(),
        ensures
            final(self).wf(),
            final(self)@ == old(self)@.interning(s@),
            r == old(self)@.place_of(s@),
            r < final(self)@.strings.len(),
            final(self)@.strings[r as int] == s@,
    {
        proof {
            interning(self@.strings, s@);
        }
        let r: usize = self.strings.intern(s);
        assert(self@ =~= old(self)@.interning(s@));
        r
    }

    /// The place of a text among the interned strings.
    pub fn intern_static(&mut self, s: &'static str) -> (r: usize)
        requires
            old(self).wf(),
        ensures
            final(self).wf(),
            final(self)@ == old(self)@.interning(s.spec_bytes()),
            r == old(self)@.place_of(s.spec_bytes()),
            r < final(self)@.strings.len(),
            final(self)@.strings[r as int] == s.spec_bytes(),
    {
        self.intern(s.as_bytes())
    }

    pub(super) fn new_function(&mut self, function: Function) -> (r: usize)
        requires
            old(self).wf(),
            old(self)@.function_ok(function),
        ensures
            final(self).wf(),
            final(self)@ == (Machine {
                functions: old(self)@.functions.push(function),
                ..old(self)@
            }),
            r == old(self)@.functions.len(),
    {
        let r: usize = self.functions.len();
        self.functions.push(function);
        assert(self@ =~= Machine {
            functions: old(self)@.functions.push(function),
            ..old(self)@
        });
        r
    }

    pub(super) fn new_closure(&mut self, closure: Closure) -> (r: usize)
        requires
            old(self).wf(),
            old(self)@.closure_ok(closure@),
        ensures
            final(self).wf(),
            final(self)@ == old(self)@.with_closure(closure@),
            r == old(self)@.closures.len(),
    {
        let r: usize = self.closures.len();
        self.closures.push(closure);
        assert(self@ =~= old(self)@.with_closure(closure@));
        r
    }

    pub(super) fn new_class(&mut self, name: usize) -> (r: usize)
        requires
            old(self).wf(),
        ensures
            final(self).wf(),
            final(self)@ == old(self)@.with_class(ClassView { name, methods: Map::empty() }),
            r == old(self)@.classes.len(),
    {
        let r: usize = self.classes.len();
        self.classes.push(Class { name, methods: new_table() });
        assert(self@ =~= old(self)@.with_class(ClassView { name, methods: Map::empty() }));
        r
    }

    pub(super) fn new_instance(&mut self, class: usize, fields: Table) -> (r: usize)
        requires
            old(self).wf(),
            class < old(self)@.classes.len(),
            old(self)@.table_ok(fields@),
        ensures
            final(self).wf(),
            final(self)@ == old(self)@.with_instance(InstanceView { class, fields: fields@ }),
            r == old(self)@.instances.len(),
    {
        let r: usize = self.instances.len();
        self.instances.push(Instance { class, fields });
        assert(self@ =~= old(self)@.with_instance(InstanceView { class, fields: fields@ }));
        r
    }

    pub(super) fn new_bound_method(&mut self, bound: BoundMethod) -> (r: usize)
        requires
            old(self).wf(),
            old(self)@.value_ok(bound.receiver),
            bound.method < old(self)@.closures.len(),
        ensures
            final(self).wf(),
            final(self)@ == old(self)@.with_bound_method(bound),
            r == old(self)@.bound_methods.len(),
    {
        let r: usize = self.bound_methods.len();
        self.bound_methods.push(bound);
        assert(self@ =~= old(self)@.with_bound_method(bound));
        r
    }

    pub(super) fn set_global(&mut self, name: usize, value: Value)
        requires
            old(self).wf(),
            name < old(self)@.strings.len(),
            old(self)@.value_ok(value),
        ensures
            final(self).wf(),
            final(self)@ == old(self)@.with_global(name, value),
    {
        table_insert(&mut self.globals, name, value);
        assert(self@ =~= old(self)@.with_global(name, value));
    }

    pub(super) fn get_global(&self, name: usize) -> (r: Option<Value>)
        requires
            self.wf(),
        ensures
            r == (if self@.globals.contains_key(name) {
                Some(self@.globals[name])
            } else {
                None
            }),
            r matches Some(v) ==> self@.value_ok(v),
    {
        table_get(&self.globals, name)
    }

    pub(super) fn get_method(&self, class: usize, name: usize) -> (r: Option<Value>)
        requires
            self.wf(),
            class < self@.classes.len(),
        ensures
            r == (if self@.classes[class as int].methods.contains_key(name) {
                Some(self@.classes[class as int].methods[name])
            } else {
                None
            }),
            r matches Some(v) ==> self@.value_ok(v),
    {
        assert(self@.table_ok(self@.classes[class as int].methods));
        table_get(&self.classes[class].methods, name)
    }

    pub(super) fn get_field(&self, instance: usize, name: usize) -> (r: Option<Value>)
        requires
            self.wf(),
            instance < self@.instances.len(),
        ensures
            r == (if self@.instances[instance as int].fields.contains_key(name) {
                Some(self@.instances[instance as int].fields[name])
            } else {
                None
            }),
            r matches Some(v) ==> self@.value_ok(v),
    {
        assert(self@.table_ok(self@.instances[instance as int].fields));
        table_get(&self.instances[instance].fields, name)
    }

    pub(super) fn set_method(&mut self, class: usize, name: usize, value: Value)
        requires
            old(self).wf(),
            class < old(self)@.classes.len(),
            name < old(self)@.strings.len(),
            old(self)@.value_ok(value),
        ensures
            final(self).wf(),
            final(self)@ == old(self)@.with_methods(
                class as int,
                old(self)@.classes[class as int].methods.insert(name, value),
            ),
    {
        assert(self@.table_ok(self@.classes[class as int].methods));
        table_insert(&mut self.classes[class].methods, name, value);
        assert(self@ =~= old(self)@.with_methods(
            class as int,
            old(self)@.classes[class as int].methods.insert(name, value),
        ));
    }

    pub(super) fn set_field(&mut self, instance: usize, name: usize, value: Value)
        requires
            old(self).wf(),
            instance < old(self)@.instances.len(),
            name < old(self)@.strings.len(),
            old(self)@.value_ok(value),
        ensures
            final(self).wf(),
            final(self)@ == old(self)@.with_fields(
                instance as int,
                old(self)@.instances[instance as int].fields.insert(name, value),
            ),
    {
        assert(self@.table_ok(self@.instances[instance as int].fields));
        table_insert(&mut self.instances[instance].fields, name, value);
        assert(self@ =~= old(self)@.with_fields(
            instance as int,
            old(self)@.instances[instance as int].fields.insert(name, value),
        ));
    }

    /// Gives a class all methods of another.
    pub(super) fn inherit(&mut self, superclass: usize, subclass: usize)
        requires
            old(self).wf(),
            superclass < old(self)@.classes.len(),
            subclass < old(self)@.classes.len(),
            superclass != subclass,
        ensures
            final(self).wf(),
            final(self)@ == old(self)@.with_methods(
                subclass as int,
                old(self)@.classes[subclass as int].methods.union_prefer_right(
                    old(self)@.classes[superclass as int].methods,
                ),
            ),
    {
        let ghost before = self@;
        assert(self@.table_ok(self@.classes[superclass as int].methods));
        assert(self@.table_ok(self@.classes[subclass as int].methods));
        let mut methods: Table = new_table();
        std::mem::swap(&mut methods, &mut self.classes[subclass].methods);
        table_extend(&mut methods, &self.classes[superclass].methods);
        std::mem::swap(&mut methods, &mut self.classes[subclass].methods);
        assert(self@ =~= before.with_methods(
            subclass as int,
            before.classes[subclass as int].methods.union_prefer_right(
                before.classes[superclass as int].methods,
            ),
        ));
    }
}

} // verus!
