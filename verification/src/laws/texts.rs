//! Strings and messages.

use vstd::prelude::*;
use vstd::utf8::*;

use crate::machine::Machine;
use crate::semantics::{op_add, Flow};
use crate::string::interning;
use crate::value::Value;

verus! {

/// The places of the outermost `n` calls, the innermost of them first.
pub open spec fn places(m: Machine, n: int) -> Seq<char>
    decreases n,
{
    if n <= 0 {
        Seq::empty()
    } else {
        m.frame_entry(m.frames[n - 1]) + places(m, n - 1)
    }
}

/// A text is followed by the places of calls.
proof fn trace_adds_places(m: Machine, text: Seq<char>, n: int)
    ensures
        m.trace_from(text, n) == text + places(m, n),
    decreases n,
{
    if n > 0 {
        let entry = m.frame_entry(m.frames[n - 1]);
        trace_adds_places(m, text + entry, n - 1);
        assert(text + entry + places(m, n - 1) =~= text + (entry + places(m, n - 1)));
    } else {
        assert(text + places(m, n) =~= text);
    }
}

/// The text of a runtime error is its message and then the place of each call under
/// way, from the innermost to the outermost.
pub proof fn traces_list_calls(m: Machine, message: Seq<char>)
    ensures
        m.trace(message) == message + places(m, m.frames.len() as int),
{
    trace_adds_places(m, message, m.frames.len() as int);
}

/// UTF-8 of two texts in a row is UTF-8 of one and then of the other.
proof fn encoding_joins(a: Seq<char>, b: Seq<char>)
    ensures
        encode_utf8(a + b) == encode_utf8(a) + encode_utf8(b),
    decreases a.len(),
{
    if a.len() == 0 {
        assert(a + b =~= b);
        assert(encode_utf8(a) + encode_utf8(b) =~= encode_utf8(b));
    } else {
        assert((a + b).drop_first() =~= a.drop_first() + b);
        encoding_joins(a.drop_first(), b);
        assert(encode_utf8(a + b) =~= encode_utf8(a) + encode_utf8(b));
    }
}

/// The sum of two strings that are UTF-8 is a string with the bytes of the one and
/// then those of the other.
pub proof fn strings_are_joined(m: Machine, a: usize, b: usize)
    requires
        m.valid(),
        m.top >= 2,
        m.peek(1) == Value::String(a),
        m.peek(0) == Value::String(b),
        valid_utf8(m.strings[a as int]),
        valid_utf8(m.strings[b as int]),
        op_add(m) matches Flow::Next(after) ==> after.strings.len() <= usize::MAX,
    ensures
        op_add(m) matches Flow::Next(after) && after.top == m.top - 1 && (after.peek(
            0,
        ) matches Value::String(p) && after.strings[p as int] == m.strings[a as int]
            + m.strings[b as int]),
{
    let x = m.strings[a as int];
    let y = m.strings[b as int];
    encoding_joins(decode_utf8(x), decode_utf8(y));
    decode_utf8_encode_utf8(x);
    decode_utf8_encode_utf8(y);
    interning(m.strings, x + y);
}

} // verus!
