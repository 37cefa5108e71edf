//! What goes into the machine and what comes out of it.

use vstd::prelude::*;
use vstd::string::*;
use vstd::utf8::*;

use crate::ast::{Expr, Stmt};
use crate::error::{ErrorView, VmError};
use crate::event::{
    answer_of, first_named, follows, lists_fields, stands_for, stands_for_field,
    stands_for_scalar, Event, Halt, Reply, Request, ReturnValue,
};
use crate::inject::{scalars, Json, JsonView};
use crate::machine::Machine;
use crate::semantics::{Answer, Flow, Inquiry};
use crate::text::{decimal, digit, lossy_text, shown};
use crate::value::Value;

verus! {

// ---- Requests and replies ----

/// A request says what the machine inquires about, part by part.
pub proof fn requests_are_told(request: Request)
    ensures
        match request@ {
            Inquiry::Arithmetic { op, a, b } => request == (Request::Arithmetic { op, a, b }),
            Inquiry::Print(v) => request == Request::Print(v),
            Inquiry::Prompt(message) => request matches Request::Prompt(bytes) && bytes@
                == message,
            Inquiry::CallNative { function, arguments } => request matches Request::CallNative {
                function: f,
                arguments: list,
            } && f == function && list@ == arguments,
            Inquiry::RunAgent { agent, message } => request matches Request::RunAgent {
                agent: a,
                message: bytes,
            } && a == agent && bytes@ == message,
        },
{
}

/// A reply is taken for what it is; none says that a value was printed.
pub proof fn replies_are_told(reply: Option<Reply>)
    ensures
        match answer_of(reply) {
            Answer::Printed => reply is None,
            Answer::Value(v) => reply == Some(Reply::Value(v)),
            Answer::Text(bytes) => reply matches Some(Reply::Text(text)) && text@ == bytes,
        },
{
}

/// What the host gives is taken for what it is: each name as its UTF-8, with its value,
/// in order.
pub proof fn scalars_are_told(list: Seq<(String, Json)>, i: int)
    requires
        0 <= i < list.len(),
    ensures
        scalars(list).len() == list.len(),
        decode_utf8(scalars(list)[i].0) == list[i].0@,
        valid_utf8(scalars(list)[i].0),
        match scalars(list)[i].1 {
            JsonView::Null => list[i].1 is Null,
            JsonView::Bool(b) => list[i].1 == Json::Bool(b),
            JsonView::Number(n) => list[i].1 == Json::Number(n),
            JsonView::String(s) => list[i].1 matches Json::String(bytes) && bytes@ == s,
            JsonView::Compound => list[i].1 is Compound,
        },
{
    encode_utf8_decode_utf8(list[i].0@);
    encode_utf8_valid_utf8(list[i].0@);
}

/// What a host learns of an instruction is what came of it: that it is to go on, the
/// value, the text of the error, the request, or that the machine cannot go on. Unless
/// it cannot, the machine is then as told.
pub proof fn outcomes_are_told(flow: Flow, r: Result<Event, Halt>, after: Machine)
    requires
        follows(flow, r, after),
    ensures
        match r {
            Ok(Event::Next) => flow == Flow::Next(after),
            Ok(Event::Done(value)) => flow matches Flow::Done(a, v) && a == after && stands_for(
                value,
                after,
                v,
            ),
            Ok(Event::Ask(request)) => flow == Flow::Ask(after, request@),
            Err(Halt::Error(VmError::RuntimeError(text))) => flow == Flow::Fail(after, text@),
            Err(Halt::Error(VmError::CompileError)) => false,
            Err(Halt::Stuck) => flow is Stuck,
        },
{
}

// ---- Results ----

/// Whether a result outside the machine is the value, none of its parts left out.
pub open spec fn tells(r: ReturnValue, m: Machine, v: Value) -> bool {
    match r {
        ReturnValue::Nil => v == Value::Nil,
        ReturnValue::Boolean(b) => v == Value::Boolean(b),
        ReturnValue::Number(n) => v == Value::Number(n),
        ReturnValue::String(bytes) => v matches Value::String(s) && m.strings[s as int] == bytes@,
        ReturnValue::Object(_) => false,
        ReturnValue::Opaque => v is Closure || v is NativeFunction || v is Class || v is Instance
            || v is BoundMethod || v is Agent,
    }
}

/// The result of a program is its value: nil, a boolean, a number, the bytes of a string,
/// the fields of an instance, and no more than that there is one of any other value.
pub proof fn results_are_told(r: ReturnValue, m: Machine, v: Value)
    requires
        stands_for(r, m, v),
    ensures
        v is Instance <==> r is Object,
        !(v is Instance) ==> tells(r, m, v),
{
}

/// An object has as many entries as the instance has fields, and each entry is one of the
/// fields, under its name and with its value. Instances in fields are not looked into.
pub proof fn fields_are_told(
    r: ReturnValue,
    m: Machine,
    i: usize,
    list: Seq<(Vec<u8>, ReturnValue)>,
    k: int,
)
    requires
        stands_for(r, m, Value::Instance(i)),
        r matches ReturnValue::Object(entries) && entries@ == list,
        0 <= k < list.len(),
    ensures
        m.instances[i as int].fields.dom().len() == list.len(),
        exists|name: usize|
            {
                &&& #[trigger] m.instances[i as int].fields.contains_key(name)
                &&& m.strings[name as int] == list[k].0@
                &&& tells(list[k].1, m, m.instances[i as int].fields[name])
            },
{
    let fields = m.instances[i as int].fields;
    let names = choose|names: Seq<usize>| lists_fields(list, m, fields, names);
    names.unique_seq_to_set();
    assert(stands_for_field(list[k], m, fields, names[k]));
    assert(stands_for_scalar(list[k].1, m, fields[names[k]]));
    assert(fields.contains_key(names[k]));
}

/// A field of an object is found under its name: the first entry of that name.
pub proof fn first_entries_are_found(list: Seq<(Vec<u8>, ReturnValue)>, name: Seq<u8>)
    ensures
        match first_named(list, name) {
            Some(v) => exists|i: int|
                {
                    &&& 0 <= i < list.len()
                    &&& (#[trigger] list[i]).0@ == name
                    &&& list[i].1 == v
                    &&& forall|j: int| 0 <= j < i ==> (#[trigger] list[j]).0@ != name
                },
            None => forall|j: int| 0 <= j < list.len() ==> (#[trigger] list[j]).0@ != name,
        },
    decreases list.len(),
{
    if list.len() > 0 && list[0].0@ != name {
        let rest = list.drop_first();
        first_entries_are_found(rest, name);
        match first_named(rest, name) {
            Some(v) => {
                let i = choose|i: int|
                    {
                        &&& 0 <= i < rest.len()
                        &&& (#[trigger] rest[i]).0@ == name
                        &&& rest[i].1 == v
                        &&& forall|j: int| 0 <= j < i ==> (#[trigger] rest[j]).0@ != name
                    };
                assert(list[i + 1] == rest[i]);
                assert forall|j: int| 0 <= j < i + 1 implies (#[trigger] list[j]).0@ != name by {
                    if j > 0 {
                        assert(rest[j - 1] == list[j]);
                    }
                }
            },
            None => {
                assert forall|j: int| 0 <= j < list.len() implies (#[trigger] list[j]).0@
                    != name by {
                    if j > 0 {
                        assert(rest[j - 1] == list[j]);
                    }
                }
            },
        }
    } else if list.len() > 0 {
        assert(list[0].0@ == name);
    }
}

// ---- Errors and lines ----

/// A runtime error tells its kind and then all of its text, and no two texts are told
/// alike.
pub proof fn errors_are_told(a: Seq<char>, b: Seq<char>)
    ensures
        ErrorView::RuntimeError(a).text().len() == 14 + a.len(),
        ErrorView::RuntimeError(a).text().take(14) == "RuntimeError: "@,
        ErrorView::RuntimeError(a).text().skip(14) == a,
        ErrorView::RuntimeError(a).text() == ErrorView::RuntimeError(b).text() ==> a == b,
        ErrorView::CompileError.text() != ErrorView::RuntimeError(a).text(),
{
    reveal_strlit("RuntimeError: ");
    reveal_strlit("CompileError");
    assert(ErrorView::RuntimeError(a).text().take(14) =~= "RuntimeError: "@);
    assert(ErrorView::RuntimeError(a).text().skip(14) =~= a);
    assert(ErrorView::RuntimeError(b).text().skip(14) =~= b);
}

/// An expression stands in the line that it was given, whatever its kind and parts.
pub proof fn expressions_stand_in_lines(e: Expr)
    ensures
        e matches Expr::Binary { line, .. } ==> e.at() == line,
        e matches Expr::Grouping { line, .. } ==> e.at() == line,
        e matches Expr::Literal { line, .. } ==> e.at() == line,
        e matches Expr::Unary { line, .. } ==> e.at() == line,
        e matches Expr::Variable { line, .. } ==> e.at() == line,
        e matches Expr::Assign { line, .. } ==> e.at() == line,
        e matches Expr::And { line, .. } ==> e.at() == line,
        e matches Expr::Or { line, .. } ==> e.at() == line,
        e matches Expr::Call { line, .. } ==> e.at() == line,
        e matches Expr::Invoke { line, .. } ==> e.at() == line,
        e matches Expr::Get { line, .. } ==> e.at() == line,
        e matches Expr::SetProperty { line, .. } ==> e.at() == line,
        e matches Expr::This { line } ==> e.at() == line,
        e matches Expr::Super { line, .. } ==> e.at() == line,
        e matches Expr::Prompt { line, .. } ==> e.at() == line,
{
}

/// A statement stands in the line that it was given, whatever its kind and parts.
pub proof fn statements_stand_in_lines(s: Stmt)
    ensures
        s matches Stmt::Expression { line, .. } ==> s.at() == line,
        s matches Stmt::Print { line, .. } ==> s.at() == line,
        s matches Stmt::Let { line, .. } ==> s.at() == line,
        s matches Stmt::Block { line, .. } ==> s.at() == line,
        s matches Stmt::If { line, .. } ==> s.at() == line,
        s matches Stmt::While { line, .. } ==> s.at() == line,
        s matches Stmt::Function { line, .. } ==> s.at() == line,
        s matches Stmt::Return { line, .. } ==> s.at() == line,
        s matches Stmt::Class { line, .. } ==> s.at() == line,
{
}

// ---- Text ----

/// The number that digits stand for, the most significant one first.
pub open spec fn number_of(digits: Seq<char>) -> int
    decreases digits.len(),
{
    if digits.len() == 0 {
        0
    } else {
        10 * number_of(digits.drop_last()) + (digits.last() as int - '0' as int)
    }
}

/// A digit is one character, that of the digit.
proof fn digits_are_characters(d: int)
    requires
        0 <= d < 10,
    ensures
        digit(d).len() == 1,
        digit(d)[0] as int == '0' as int + d,
{
    reveal_strlit("0");
    reveal_strlit("1");
    reveal_strlit("2");
    reveal_strlit("3");
    reveal_strlit("4");
    reveal_strlit("5");
    reveal_strlit("6");
    reveal_strlit("7");
    reveal_strlit("8");
    reveal_strlit("9");
}

/// A number is written in digits that stand for it, without a leading zero.
pub proof fn decimals_are_read_back(n: nat)
    ensures
        number_of(decimal(n)) == n,
        decimal(n).len() >= 1,
        forall|i: int| 0 <= i < decimal(n).len() ==> '0' <= #[trigger] decimal(n)[i] <= '9',
        n > 0 ==> decimal(n)[0] != '0',
    decreases n,
{
    let last = (n % 10) as int;
    digits_are_characters(last);
    if n < 10 {
        assert(decimal(n) == digit(last));
        assert(decimal(n).drop_last() =~= Seq::empty());
        assert(number_of(decimal(n).drop_last()) == 0);
    } else {
        decimals_are_read_back(n / 10);
        assert(decimal(n) == decimal(n / 10) + digit(last));
        assert(decimal(n).drop_last() =~= decimal(n / 10));
        assert(decimal(n).last() == digit(last)[0]);
        assert forall|i: int| 0 <= i < decimal(n).len() implies '0' <= #[trigger] decimal(n)[i]
            <= '9' by {
            if i < decimal(n / 10).len() {
                assert(decimal(n)[i] == decimal(n / 10)[i]);
            }
        }
        assert(decimal(n)[0] == decimal(n / 10)[0]);
    }
}

/// Bytes that are UTF-8 are shown as the text whose UTF-8 they are; others as the standard
/// library shows them.
pub proof fn bytes_are_shown(bytes: Seq<u8>)
    ensures
        valid_utf8(bytes) ==> encode_utf8(shown(bytes)) == bytes,
        !valid_utf8(bytes) ==> shown(bytes) == lossy_text(bytes),
{
    if valid_utf8(bytes) {
        decode_utf8_encode_utf8(bytes);
    }
}

} // verus!
