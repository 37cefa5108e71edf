//! Whole programs, whose requests are answered on the way.

use vstd::prelude::*;

use crate::laws::growth::{
    after, grown, instructions_keep_calls, instructions_only_add, keeps_calls,
};
use crate::laws::running::budgets_are_kept;
use crate::laws::validity::{instructions_keep_validity, interning_is_valid};
use crate::machine::Machine;
use crate::semantics::{
    answered_cost, answered_run, cost, dispatch, run, take_answer, turn, Answer, Flow,
};

verus! {

/// How a run goes on that had come to the end of its budget, or how it ended.
pub open spec fn then_answered(end: (Flow, Seq<Answer>), stop: int, n: nat) -> (Flow, Seq<Answer>) {
    match end {
        (Flow::Next(m), rest) => answered_run(m, stop, n, rest),
        end => end,
    }
}

/// What a budget is cut into makes no difference, whatever the requests and answers
/// on the way: a run of `a + b` instructions is a run of `a`, and then one of `b`.
pub proof fn answered_budgets_add_up(m: Machine, stop: int, a: nat, b: nat, answers: Seq<Answer>)
    requires
        a >= 1,
        b >= 1,
    ensures
        answered_run(m, stop, a + b, answers) == then_answered(
            answered_run(m, stop, a, answers),
            stop,
            b,
        ),
        answered_run(m, stop, a, answers) matches (Flow::Next(next), rest) ==> answered_cost(
            m,
            stop,
            a + b,
            answers,
        ) == a + answered_cost(next, stop, b, rest),
        !(answered_run(m, stop, a, answers).0 is Next) ==> answered_cost(m, stop, a + b, answers)
            == answered_cost(m, stop, a, answers),
    decreases a,
{
    match turn(m, stop, answers) {
        (Flow::Next(next), rest) => {
            if a > 1 {
                answered_budgets_add_up(next, stop, (a - 1) as nat, b, rest);
                assert((a - 1) as nat + b == (a + b - 1) as nat);
            } else {
                assert((a + b - 1) as nat == b);
            }
        },
        _ => {},
    }
}

/// The sum of budgets.
pub open spec fn total(budgets: Seq<nat>) -> nat
    decreases budgets.len(),
{
    if budgets.len() == 0 {
        0
    } else {
        total(budgets.drop_last()) + budgets.last()
    }
}

/// A run on one budget after the other, as a host makes it that looks at its garbage
/// collector in between.
pub open spec fn sliced_run(m: Machine, stop: int, budgets: Seq<nat>, answers: Seq<Answer>) -> (
    Flow,
    Seq<Answer>,
)
    decreases budgets.len(),
{
    if budgets.len() == 0 {
        (Flow::Next(m), answers)
    } else {
        then_answered(sliced_run(m, stop, budgets.drop_last(), answers), stop, budgets.last())
    }
}

/// A program comes to the same end, with the same instructions and requests, whatever
/// the budgets that its run is cut into.
pub proof fn slices_make_no_difference(
    m: Machine,
    stop: int,
    budgets: Seq<nat>,
    answers: Seq<Answer>,
)
    requires
        budgets.len() > 0,
        forall|i: int| 0 <= i < budgets.len() ==> #[trigger] budgets[i] >= 1,
    ensures
        sliced_run(m, stop, budgets, answers) == answered_run(m, stop, total(budgets), answers),
        total(budgets) >= 1,
    decreases budgets.len(),
{
    let rest = budgets.drop_last();
    assert(budgets.last() >= 1);
    if rest.len() > 0 {
        assert forall|i: int| 0 <= i < rest.len() implies #[trigger] rest[i] >= 1 by {
            assert(rest[i] == budgets[i]);
        }
        slices_make_no_difference(m, stop, rest, answers);
        answered_budgets_add_up(m, stop, total(rest), budgets.last(), answers);
    } else {
        assert(total(rest) == 0);
        assert(sliced_run(m, stop, rest, answers) == (Flow::Next(m), answers));
    }
}

/// A run without answers is a run up to the next request.
pub proof fn runs_stop_at_requests(m: Machine, stop: int, n: nat)
    ensures
        answered_run(m, stop, n, Seq::empty()) == (run(m, stop, n), Seq::<Answer>::empty()),
        answered_cost(m, stop, n, Seq::empty()) == cost(m, stop, n),
    decreases n,
{
    match dispatch(m, stop) {
        Flow::Next(next) => {
            if n > 1 {
                runs_stop_at_requests(next, stop, (n - 1) as nat);
            }
        },
        _ => {},
    }
}

/// How a run goes on that has come to a request, with what is left of its budget.
pub open spec fn after_request(
    asking: Machine,
    stop: int,
    left: int,
    answers: Seq<Answer>,
) -> (Flow, Seq<Answer>) {
    match take_answer(asking, answers[0]) {
        Flow::Next(next) => if left > 0 {
            answered_run(next, stop, left as nat, answers.drop_first())
        } else {
            (Flow::Next(next), answers.drop_first())
        },
        flow => (flow, answers.drop_first()),
    }
}

/// How much of a budget that takes.
pub open spec fn after_request_cost(
    asking: Machine,
    stop: int,
    left: int,
    answers: Seq<Answer>,
) -> nat {
    match take_answer(asking, answers[0]) {
        Flow::Next(next) => if left > 0 {
            answered_cost(next, stop, left as nat, answers.drop_first())
        } else {
            0
        },
        _ => 0,
    }
}

/// A run whose requests are answered is a run up to the first request, the answer to
/// that, and a run on what is left of the budget.
pub proof fn answers_come_between(m: Machine, stop: int, n: nat, answers: Seq<Answer>)
    requires
        n >= 1,
    ensures
        match run(m, stop, n) {
            Flow::Ask(asking, inquiry) => if answers.len() == 0 {
                answered_run(m, stop, n, answers) == (Flow::Ask(asking, inquiry), answers)
            } else {
                &&& answered_run(m, stop, n, answers) == after_request(
                    asking,
                    stop,
                    n - cost(m, stop, n),
                    answers,
                )
                &&& answered_cost(m, stop, n, answers) == cost(m, stop, n) + after_request_cost(
                    asking,
                    stop,
                    n - cost(m, stop, n),
                    answers,
                )
            },
            flow => answered_run(m, stop, n, answers) == (flow, answers) && answered_cost(
                m,
                stop,
                n,
                answers,
            ) == cost(m, stop, n),
        },
    decreases n,
{
    budgets_are_kept(m, stop, n);
    match dispatch(m, stop) {
        Flow::Next(next) => {
            if n > 1 {
                answers_come_between(next, stop, (n - 1) as nat, answers);
                assert(run(m, stop, n) == run(next, stop, (n - 1) as nat));
                assert(cost(m, stop, n) == 1 + cost(next, stop, (n - 1) as nat));
                assert(answered_run(m, stop, n, answers) == answered_run(
                    next,
                    stop,
                    (n - 1) as nat,
                    answers,
                ));
            }
        },
        _ => {},
    }
}

/// The machine after exactly `k` instructions that do not end the run, and the answers
/// that are left then; `None` where the run ends before.
pub open spec fn after_instructions(m: Machine, stop: int, k: nat, answers: Seq<Answer>) -> Option<
    (Machine, Seq<Answer>),
>
    decreases k,
{
    if k == 0 {
        Some((m, answers))
    } else {
        match turn(m, stop, answers) {
            (Flow::Next(next), rest) => after_instructions(next, stop, (k - 1) as nat, rest),
            _ => None,
        }
    }
}

/// A run ends as its first instruction does that does not go on, if its budget reaches
/// that far.
pub proof fn runs_end_as_instructions_do(
    m: Machine,
    stop: int,
    k: nat,
    n: nat,
    answers: Seq<Answer>,
    last: Machine,
    rest: Seq<Answer>,
)
    requires
        1 <= k <= n,
        after_instructions(m, stop, (k - 1) as nat, answers) == Some((last, rest)),
        !(turn(last, stop, rest).0 is Next),
    ensures
        answered_run(m, stop, n, answers) == turn(last, stop, rest),
    decreases k,
{
    if k > 1 {
        match turn(m, stop, answers) {
            (Flow::Next(next), remaining) => {
                runs_end_as_instructions_do(
                    next,
                    stop,
                    (k - 1) as nat,
                    (n - 1) as nat,
                    remaining,
                    last,
                    rest,
                );
            },
            _ => {},
        }
    }
}

/// A program ends as the first of its instructions does that does not go on, whatever
/// the budgets that its run is cut into; and once it has returned, only the outermost
/// `stop` calls are left.
pub proof fn programs_end_as_instructions_do(
    m: Machine,
    stop: int,
    k: nat,
    budgets: Seq<nat>,
    answers: Seq<Answer>,
    last: Machine,
    rest: Seq<Answer>,
)
    requires
        m.valid(),
        0 <= stop < m.frames.len(),
        1 <= k <= total(budgets),
        forall|i: int| 0 <= i < budgets.len() ==> #[trigger] budgets[i] >= 1,
        after_instructions(m, stop, (k - 1) as nat, answers) == Some((last, rest)),
        !(turn(last, stop, rest).0 is Next),
    ensures
        sliced_run(m, stop, budgets, answers) == turn(last, stop, rest),
        sliced_run(m, stop, budgets, answers).0 matches Flow::Done(a, _) ==> a.frames
            == m.frames.take(stop),
{
    slices_make_no_difference(m, stop, budgets, answers);
    runs_end_as_instructions_do(m, stop, k, total(budgets), answers, last, rest);
    sessions_keep_calls(m, stop, total(budgets), answers);
}

/// Whether none of the machines of a run, as they are before each instruction, is as
/// told.
pub open spec fn run_avoids(
    m: Machine,
    stop: int,
    n: nat,
    answers: Seq<Answer>,
    bad: spec_fn(Machine) -> bool,
) -> bool
    decreases n,
{
    &&& !bad(m)
    &&& match turn(m, stop, answers) {
        (Flow::Next(next), rest) => n <= 1 || run_avoids(next, stop, (n - 1) as nat, rest, bad),
        _ => true,
    }
}

/// What a script is charged. One that returns at its instruction `k` ends with its
/// value within any budget of at least `k`, and pays for all instructions but that
/// one. On a smaller budget it is cut off after as many instructions as the budget
/// pays for, and pays all of it.
pub proof fn scripts_are_charged(
    m: Machine,
    stop: int,
    k: nat,
    n: nat,
    answers: Seq<Answer>,
    last: Machine,
    rest: Seq<Answer>,
)
    requires
        k >= 1,
        n >= 1,
        after_instructions(m, stop, (k - 1) as nat, answers) == Some((last, rest)),
        dispatch(last, stop) is Done,
    ensures
        k <= n ==> answered_run(m, stop, n, answers) == (dispatch(last, stop), rest)
            && answered_cost(m, stop, n, answers) == k - 1,
        k > n ==> {
            &&& answered_cost(m, stop, n, answers) == n
            &&& answered_run(m, stop, n, answers) matches (Flow::Next(cut), left)
                && after_instructions(m, stop, n, answers) == Some((cut, left))
        },
    decreases k,
{
    if k > 1 {
        match turn(m, stop, answers) {
            (Flow::Next(next), remaining) => {
                if n > 1 {
                    scripts_are_charged(
                        next,
                        stop,
                        (k - 1) as nat,
                        (n - 1) as nat,
                        remaining,
                        last,
                        rest,
                    );
                } else {
                    assert(after_instructions(next, stop, 0, remaining) == Some((next, remaining)));
                }
            },
            _ => {},
        }
    }
}

/// What `step` is charged by: a script that returns at its instruction `k` and asks for
/// nothing before that.
pub proof fn steps_are_charged(m: Machine, stop: int, k: nat, n: nat, last: Machine)
    requires
        k >= 1,
        n >= 1,
        after_instructions(m, stop, (k - 1) as nat, Seq::empty()) == Some(
            (last, Seq::<Answer>::empty()),
        ),
        dispatch(last, stop) is Done,
    ensures
        k <= n ==> run(m, stop, n) == dispatch(last, stop) && cost(m, stop, n) == k - 1,
        k > n ==> {
            &&& cost(m, stop, n) == n
            &&& run(m, stop, n) matches Flow::Next(cut) && after_instructions(
                m,
                stop,
                n,
                Seq::empty(),
            ) == Some((cut, Seq::<Answer>::empty()))
        },
{
    runs_stop_at_requests(m, stop, n);
    scripts_are_charged(m, stop, k, n, Seq::empty(), last, Seq::empty());
}

/// An answer leaves a valid machine valid, the calls as they were, and everything that
/// there was.
pub proof fn answers_keep_validity(m: Machine, answer: Answer)
    requires
        m.valid(),
    ensures
        take_answer(m, answer) is Next || take_answer(m, answer) is Stuck,
        take_answer(m, answer) matches Flow::Next(a) ==> {
            &&& a.valid()
            &&& grown(m, a)
            &&& a.frames == m.frames
            &&& a.globals == m.globals
            &&& a.upvalues == m.upvalues
            &&& a.open == m.open
        },
{
    match answer {
        Answer::Text(bytes) => {
            interning_is_valid(m, bytes);
        },
        _ => {},
    }
}

/// One instruction, with its answer, leaves a valid machine valid.
pub proof fn turns_keep_validity(m: Machine, stop: int, answers: Seq<Answer>)
    requires
        m.valid(),
    ensures
        after(turn(m, stop, answers).0) matches Some(a) ==> a.valid() && grown(m, a),
        turn(m, stop, answers).0 matches Flow::Done(a, v) ==> a.value_ok(v),
        0 <= stop < m.frames.len() ==> keeps_calls(turn(m, stop, answers).0, m.frames, stop),
{
    instructions_keep_validity(m, stop);
    instructions_only_add(m, stop);
    if 0 <= stop < m.frames.len() {
        instructions_keep_calls(m, stop);
    }
    match dispatch(m, stop) {
        Flow::Ask(asking, _) => {
            if answers.len() > 0 {
                answers_keep_validity(asking, answers[0]);
            }
        },
        _ => {},
    }
}

/// A whole program leaves a valid machine valid, everything that there was is still
/// there, and the value that it ends with is there.
pub proof fn sessions_keep_validity(m: Machine, stop: int, n: nat, answers: Seq<Answer>)
    requires
        m.valid(),
    ensures
        after(answered_run(m, stop, n, answers).0) matches Some(a) ==> a.valid() && grown(m, a),
        answered_run(m, stop, n, answers).0 matches Flow::Done(a, v) ==> a.value_ok(v),
    decreases n,
{
    turns_keep_validity(m, stop, answers);
    match turn(m, stop, answers) {
        (Flow::Next(next), rest) => {
            if n > 1 {
                sessions_keep_validity(next, stop, (n - 1) as nat, rest);
            }
        },
        _ => {},
    }
}

/// A whole program leaves the outermost `stop` calls alone, and ends exactly when no
/// more are left.
pub proof fn sessions_keep_calls(m: Machine, stop: int, n: nat, answers: Seq<Answer>)
    requires
        m.valid(),
        0 <= stop < m.frames.len(),
    ensures
        keeps_calls(answered_run(m, stop, n, answers).0, m.frames, stop),
    decreases n,
{
    turns_keep_validity(m, stop, answers);
    match turn(m, stop, answers) {
        (Flow::Next(next), rest) => {
            if n > 1 {
                sessions_keep_calls(next, stop, (n - 1) as nat, rest);
            }
        },
        _ => {},
    }
}

} // verus!
