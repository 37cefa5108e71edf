//! Runs and their budgets.

use vstd::prelude::*;

use crate::laws::growth::{
    after, grown, instructions_keep_calls, instructions_only_add, keeps_calls,
};
use crate::laws::validity::{
    function_calls_keep_validity, instructions_keep_validity, instructions_keep_wf,
};
use crate::machine::Machine;
use crate::semantics::{call_function, cost, dispatch, eval_function, run, Flow};

verus! {

/// How a run goes on that had come to the end of its budget, or how it ended.
pub open spec fn then_run(flow: Flow, stop: int, n: nat) -> Flow {
    match flow {
        Flow::Next(m) => run(m, stop, n),
        flow => flow,
    }
}

/// What a budget is cut into makes no difference: a run of `a + b` instructions is
/// a run of `a`, and then one of `b`.
pub proof fn budgets_add_up(m: Machine, stop: int, a: nat, b: nat)
    requires
        a >= 1,
        b >= 1,
    ensures
        run(m, stop, a + b) == then_run(run(m, stop, a), stop, b),
        run(m, stop, a) matches Flow::Next(after) ==> cost(m, stop, a + b) == a + cost(
            after,
            stop,
            b,
        ),
        !(run(m, stop, a) is Next) ==> cost(m, stop, a + b) == cost(m, stop, a),
    decreases a,
{
    match dispatch(m, stop) {
        Flow::Next(next) => {
            if a > 1 {
                budgets_add_up(next, stop, (a - 1) as nat, b);
                assert((a - 1) as nat + b == (a + b - 1) as nat);
                assert(run(m, stop, a) == run(next, stop, (a - 1) as nat));
                assert(run(m, stop, a + b) == run(next, stop, (a + b - 1) as nat));
            } else {
                assert(run(m, stop, a) == Flow::Next(next));
                assert((a + b - 1) as nat == b);
            }
        },
        _ => {},
    }
}

/// A run never takes more than its budget, and takes all of it where it is cut off.
pub proof fn budgets_are_kept(m: Machine, stop: int, n: nat)
    requires
        n >= 1,
    ensures
        cost(m, stop, n) <= n,
        run(m, stop, n) is Next ==> cost(m, stop, n) == n,
    decreases n,
{
    match dispatch(m, stop) {
        Flow::Next(next) => {
            if n > 1 {
                budgets_are_kept(next, stop, (n - 1) as nat);
            }
        },
        _ => {},
    }
}

/// A run leaves a well-formed machine well-formed, and the value that it ends with
/// is there. No machine holds captured variables beyond the size of the address space.
pub proof fn runs_keep_wf(m: Machine, stop: int, n: nat)
    requires
        m.wf(),
        after(run(m, stop, n)) matches Some(a) ==> a.upvalues.len() <= usize::MAX,
    ensures
        after(run(m, stop, n)) matches Some(a) ==> a.wf(),
        run(m, stop, n) matches Flow::Done(a, v) ==> a.value_ok(v),
    decreases n,
{
    match dispatch(m, stop) {
        Flow::Next(next) => {
            if n > 1 {
                instructions_keep_validity(m, stop);
                runs_keep_validity(next, stop, (n - 1) as nat);
                match after(run(next, stop, (n - 1) as nat)) {
                    Some(a) => {
                        assert(next.upvalues.len() <= a.upvalues.len());
                        instructions_keep_wf(m, stop);
                        runs_keep_wf(next, stop, (n - 1) as nat);
                    },
                    None => {},
                }
            } else {
                instructions_keep_wf(m, stop);
            }
        },
        _ => {
            instructions_keep_wf(m, stop);
        },
    }
}

/// A run leaves a valid machine valid, and everything that there was is still there.
pub proof fn runs_keep_validity(m: Machine, stop: int, n: nat)
    requires
        m.valid(),
    ensures
        after(run(m, stop, n)) matches Some(a) ==> a.valid() && grown(m, a),
    decreases n,
{
    instructions_keep_validity(m, stop);
    instructions_only_add(m, stop);
    match dispatch(m, stop) {
        Flow::Next(next) => {
            if n > 1 {
                runs_keep_validity(next, stop, (n - 1) as nat);
            }
        },
        _ => {},
    }
}

/// A run of a call leaves the outermost `stop` calls alone, and ends exactly when no
/// more are left.
pub proof fn runs_keep_calls(m: Machine, stop: int, n: nat)
    requires
        m.valid(),
        0 <= stop < m.frames.len(),
    ensures
        keeps_calls(run(m, stop, n), m.frames, stop),
    decreases n,
{
    instructions_keep_calls(m, stop);
    instructions_keep_validity(m, stop);
    match dispatch(m, stop) {
        Flow::Next(next) => {
            if n > 1 {
                runs_keep_calls(next, stop, (n - 1) as nat);
            }
        },
        _ => {},
    }
}

/// A function of the program that is called and returns leaves the calls under way
/// as they were.
pub proof fn evaluations_restore_calls(m: Machine, chunk_id: usize, n: nat)
    requires
        m.valid(),
    ensures
        eval_function(m, chunk_id, n) matches Flow::Done(a, _) ==> a.frames == m.frames,
{
    match call_function(m, chunk_id) {
        Flow::Next(called) => {
            let stop = m.frames.len() as int;
            function_calls_keep_validity(m, chunk_id);
            assert(called.frames.take(stop) =~= m.frames);
            runs_keep_calls(called, stop, n);
        },
        _ => {},
    }
}

} // verus!
