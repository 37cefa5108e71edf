use aiscript_vm::ast::{Expr, LiteralValue, ParseError, Program, Stmt, Token};
use aiscript_vm::error::VmError;
use aiscript_vm::event::ReturnValue;
use aiscript_vm::fuel::Fuel;
use aiscript_vm::number::{number_eq, number_lt, number_neg};
use aiscript_vm::string::InternedStringSet;
use aiscript_vm::text::{decimal_text, same_bytes, show};
use aiscript_vm::value::{NativeFn, Value};
use aiscript_vm::vm::{collector_action, CollectorAction, FUEL_PER_GC};

fn samples() -> Vec<f64> {
    vec![
        0.0,
        -0.0,
        1.0,
        -1.0,
        1.5,
        -1.5,
        123.0,
        f64::MIN_POSITIVE,
        -f64::MIN_POSITIVE,
        5e-324,
        -5e-324,
        f64::MAX,
        f64::MIN,
        f64::INFINITY,
        f64::NEG_INFINITY,
        f64::NAN,
        -f64::NAN,
    ]
}

#[test]
fn numbers_compare_as_floats_do() {
    for a in samples() {
        for b in samples() {
            assert_eq!(number_eq(a.to_bits(), b.to_bits()), a == b, "{a} == {b}");
            assert_eq!(number_lt(a.to_bits(), b.to_bits()), a < b, "{a} < {b}");
        }
    }
}

#[test]
fn numbers_are_negated_as_floats_are() {
    for a in samples() {
        assert_eq!(number_neg(a.to_bits()), (-a).to_bits());
        assert_eq!(number_neg(number_neg(a.to_bits())), a.to_bits());
    }
}

#[test]
fn numbers_compare_in_one_way() {
    for a in samples() {
        for b in samples() {
            let (x, y) = (a.to_bits(), b.to_bits());
            let ways = [number_eq(x, y), number_lt(x, y), number_lt(y, x)];
            let count = ways.iter().filter(|w| **w).count();
            assert_eq!(count, if a.is_nan() || b.is_nan() { 0 } else { 1 });
        }
    }
}

#[test]
fn decimals_have_no_leading_zeros() {
    assert_eq!(decimal_text(0), "0");
    assert_eq!(decimal_text(7), "7");
    assert_eq!(decimal_text(10), "10");
    assert_eq!(decimal_text(1024), "1024");
    assert_eq!(decimal_text(9876543), "9876543");
    assert_eq!(decimal_text(u32::MAX), "4294967295");
}

#[test]
fn bytes_are_shown_as_text() {
    assert_eq!(show(b"abc"), "abc");
    assert_eq!(show("h\u{e9}llo".as_bytes()), "h\u{e9}llo");
    assert_eq!(show(b""), "");
}

#[test]
fn bytes_that_are_no_text_are_replaced() {
    assert_eq!(show(b"a\xffb"), "a\u{fffd}b");
    assert_eq!(show(b"\xe2\x82"), "\u{fffd}");
}

#[test]
fn bytes_are_compared() {
    assert!(same_bytes(b"abc", b"abc"));
    assert!(same_bytes(b"", b""));
    assert!(!same_bytes(b"abc", b"abd"));
    assert!(!same_bytes(b"abc", b"ab"));
}

#[test]
fn strings_are_interned_once() {
    let mut set = InternedStringSet::new();
    let a = set.intern(b"a");
    let b = set.intern(b"b");
    assert_ne!(a, b);
    assert_eq!(set.intern(b"a"), a);
    assert_eq!(set.intern(b"b"), b);
    assert_eq!(set.len(), 2);
    assert_eq!(set.get(a), b"a");
    assert_eq!(set.get(b), b"b");
    assert!(set.is_text(a, "a"));
    assert!(!set.is_text(a, "b"));
}

#[test]
fn a_budget_counts_down() {
    let mut fuel = Fuel::new(2);
    assert!(fuel.should_continue());
    fuel.consume(1);
    assert!(fuel.should_continue());
    fuel.consume(1);
    assert!(!fuel.should_continue());
    fuel.consume(1);
    assert!(!fuel.should_continue());
}

#[test]
fn a_budget_stops_at_its_limits() {
    let mut fuel = Fuel::new(i32::MIN);
    fuel.consume(i32::MAX);
    assert!(!fuel.should_continue());
    let mut fuel = Fuel::new(i32::MAX);
    fuel.consume(i32::MIN);
    assert!(fuel.should_continue());
}

#[test]
fn the_budget_between_collections() {
    assert_eq!(FUEL_PER_GC, 1024 * 10);
}

#[test]
fn the_collector_is_told_what_to_do() {
    assert_eq!(collector_action(false, false), CollectorAction::Wait);
    assert_eq!(collector_action(false, true), CollectorAction::Wait);
    assert_eq!(collector_action(true, true), CollectorAction::CollectDebt);
    assert_eq!(collector_action(true, false), CollectorAction::MarkAndSweep);
}

#[test]
fn values_are_true_or_false() {
    assert!(Value::Nil.is_falsy());
    assert!(Value::Boolean(false).is_falsy());
    assert!(!Value::Boolean(true).is_falsy());
    assert!(!Value::Number(0.0f64.to_bits()).is_falsy());
    assert!(!Value::String(0).is_falsy());
}

#[test]
fn values_are_equal_by_kind_and_content() {
    assert!(Value::Nil.equals(&Value::Nil));
    assert!(Value::Number(0.0f64.to_bits()).equals(&Value::Number((-0.0f64).to_bits())));
    assert!(!Value::Number(f64::NAN.to_bits()).equals(&Value::Number(f64::NAN.to_bits())));
    assert!(Value::String(3).equals(&Value::String(3)));
    assert!(!Value::String(3).equals(&Value::Class(3)));
    assert!(!Value::Boolean(false).equals(&Value::Nil));
    assert!(Value::NativeFunction(NativeFn::Clock).equals(&Value::NativeFunction(NativeFn::Clock)));
    assert!(!Value::Instance(1).equals(&Value::Instance(2)));
}

#[test]
fn equality_holds_in_both_directions() {
    let values = [
        Value::Nil,
        Value::Boolean(true),
        Value::Number(1.0f64.to_bits()),
        Value::Number(f64::NAN.to_bits()),
        Value::String(0),
        Value::Class(0),
        Value::Agent(0),
    ];
    for (i, a) in values.iter().enumerate() {
        for (j, b) in values.iter().enumerate() {
            assert_eq!(a.equals(b), b.equals(a));
            assert_eq!(a.equals(b), i == j && i != 3);
        }
    }
}

#[test]
fn errors_are_shown() {
    assert_eq!(VmError::CompileError.to_string(), "CompileError");
    assert_eq!(
        VmError::RuntimeError("no such thing".to_string()).to_string(),
        "RuntimeError: no such thing"
    );
}

#[test]
fn parse_errors_are_shown() {
    let error = ParseError::new("Expect ';'.", 12);
    assert_eq!(error.message, "Expect ';'.");
    assert_eq!(error.line, 12);
    assert_eq!(error.to_string(), "[line 12] Error: Expect ';'.");
    let error = ParseError::new(String::from("x"), 0);
    assert_eq!(error.to_string(), "[line 0] Error: x");
}

fn token(lexeme: &str) -> Token {
    Token { lexeme: lexeme.to_string(), line: 99 }
}

fn number(line: u32) -> Box<Expr> {
    Box::new(Expr::Literal { value: LiteralValue::Number(1.0f64.to_bits()), line })
}

#[test]
fn expressions_have_lines() {
    let list = vec![
        Expr::Binary { left: number(50), operator: token("+"), right: number(51), line: 1 },
        Expr::Grouping { expression: number(50), line: 2 },
        Expr::Literal { value: LiteralValue::Nil, line: 3 },
        Expr::Unary { operator: token("-"), right: number(50), line: 4 },
        Expr::Variable { name: token("x"), line: 5 },
        Expr::Assign { name: token("x"), value: number(50), line: 6 },
        Expr::And { left: number(50), right: number(51), line: 7 },
        Expr::Or { left: number(50), right: number(51), line: 8 },
        Expr::Call { callee: number(50), arguments: vec![], line: 9 },
        Expr::Invoke { object: number(50), method: token("m"), arguments: vec![], line: 10 },
        Expr::Get { object: number(50), name: token("f"), line: 11 },
        Expr::SetProperty { object: number(50), name: token("f"), value: number(51), line: 12 },
        Expr::This { line: 13 },
        Expr::Super { method: token("m"), arguments: vec![], line: 14 },
        Expr::Prompt { expression: number(50), line: 15 },
    ];
    for (i, expr) in list.iter().enumerate() {
        assert_eq!(expr.line() as usize, i + 1);
    }
}

#[test]
fn statements_have_lines() {
    let body = || Box::new(Stmt::Return { value: None, line: 60 });
    let list = vec![
        Stmt::Expression { expression: *number(50), line: 1 },
        Stmt::Print { expression: *number(50), line: 2 },
        Stmt::Let { name: token("x"), initializer: None, line: 3 },
        Stmt::Block { statements: vec![], line: 4 },
        Stmt::If { condition: *number(50), then_branch: body(), else_branch: None, line: 5 },
        Stmt::While { condition: *number(50), body: body(), line: 6 },
        Stmt::Function { name: token("f"), params: vec![], body: vec![], is_ai: false, line: 7 },
        Stmt::Return { value: None, line: 8 },
        Stmt::Class { name: token("C"), superclass: None, methods: vec![], line: 9 },
    ];
    for (i, stmt) in list.iter().enumerate() {
        assert_eq!(stmt.line() as usize, i + 1);
    }
}

#[test]
fn a_new_program_is_empty() {
    assert!(Program::new().statements.is_empty());
}

#[test]
fn fields_of_objects_are_found() {
    let object = ReturnValue::Object(vec![
        (b"a".to_vec(), ReturnValue::Nil),
        (b"b".to_vec(), ReturnValue::Boolean(true)),
    ]);
    assert_eq!(object.get("a"), Some(&ReturnValue::Nil));
    assert_eq!(object.get("b"), Some(&ReturnValue::Boolean(true)));
    assert_eq!(object.get("c"), None);
    assert_eq!(ReturnValue::Nil.get("a"), None);
}
