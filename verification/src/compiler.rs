//! From generated code to functions of the machine.

use std::collections::BTreeMap;

use vstd::prelude::*;

use crate::chunk::Function;
use crate::error::VmError;
use crate::semantics::{functions_ok, numbered, with_functions};
use crate::vm::Context;

verus! {

/// Puts the functions that a code generator made of a program on the machine's
/// heap and tells where each is. What kept the generator from its work is handed on.
pub fn compile(ctx: Context<'_>, generated: Result<Vec<(usize, Function)>, VmError>) -> (r: Result<
    BTreeMap<usize, usize>,
    VmError,
>)
    requires
        ctx.state.wf(),
        generated matches Ok(list) ==> functions_ok(ctx.state@, list@),
    ensures
        final(ctx.state).wf(),
        match generated {
            Ok(list) => {
                &&& r matches Ok(places) && places@ == numbered(
                    list@,
                    old(ctx.state)@.functions.len() as int,
                )
                &&& final(ctx.state)@ == with_functions(old(ctx.state)@, list@)
            },
            Err(error) => r == Err::<BTreeMap<usize, usize>, VmError>(error) && *final(ctx.state)
                == *old(ctx.state),
        },
{
    let list: Vec<(usize, Function)> = match generated {
        Ok(list) => list,
        Err(error) => {
            return Err(error);
        },
    };
    let mut ctx: Context<'_> = ctx;
    let ghost before = ctx.state@;
    let ghost all = list@;
    let ghost end = *final(ctx.state);
    let mut places: BTreeMap<usize, usize> = BTreeMap::new();
    assert(with_functions(before, all.take(0)) =~= before);
    for item in iter: list
        invariant
            iter.seq() == all,
            ctx.state.wf(),
            *final(ctx.state) == end,
            functions_ok(before, all),
            ctx.state@ == with_functions(before, all.take(iter.index())),
            places@ == numbered(all.take(iter.index()), before.functions.len() as int),
    {
        let ghost i = iter.index();
        let (id, function): (usize, Function) = item;
        assert(before.function_ok(all[i].1));
        let place: usize = ctx.new_function(function);
        places.insert(id, place);
        proof {
            assert(all.take(i + 1).drop_last() =~= all.take(i));
            assert(ctx.state@ =~= with_functions(before, all.take(i + 1)));
        }
    }
    assert(all.take(all.len() as int) =~= all);
    Ok(places)
}

} // verus!
