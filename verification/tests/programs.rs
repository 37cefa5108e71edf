use std::collections::HashMap;

use aiscript_vm::chunk::{Chunk, Function, OpCode, Upvalue};
use aiscript_vm::compiler;
use aiscript_vm::error::VmError;
use aiscript_vm::event::{Event, Halt, Reply, Request, ReturnValue};
use aiscript_vm::fuel::Fuel;
use aiscript_vm::inject::Json;
use aiscript_vm::machine::{FRAME_MAX_SIZE, STACK_MAX_SIZE};
use aiscript_vm::semantics::ArithmeticOp;
use aiscript_vm::value::{NativeFn, Value};
use aiscript_vm::vm::{Context, Vm, FUEL_PER_GC};

fn num(x: f64) -> Value {
    Value::Number(x.to_bits())
}

fn text(vm: &mut Vm, s: &str) -> Value {
    Value::String(vm.state.intern(s.as_bytes()))
}

fn place(vm: &mut Vm, s: &str) -> usize {
    Context { state: &mut vm.state }.intern(s.as_bytes())
}

/// A function whose instruction `i` stands in line `i + 1`.
fn function(
    arity: u8,
    name: Option<usize>,
    upvalues: Vec<Upvalue>,
    code: Vec<OpCode>,
    constants: Vec<Value>,
) -> Function {
    let lines = (1..=code.len() as u32).collect();
    Function { arity, chunk: Chunk { code, constants, lines }, name, upvalues }
}

fn script(code: Vec<OpCode>, constants: Vec<Value>) -> Vec<(usize, Function)> {
    vec![(0, function(0, None, vec![], code, constants))]
}

fn arithmetic(op: ArithmeticOp, a: u64, b: u64) -> u64 {
    let (a, b) = (f64::from_bits(a), f64::from_bits(b));
    let result = match op {
        ArithmeticOp::Add => a + b,
        ArithmeticOp::Subtract => a - b,
        ArithmeticOp::Multiply => a * b,
        ArithmeticOp::Divide => a / b,
    };
    result.to_bits()
}

fn answer(request: Request) -> Option<Reply> {
    match request {
        Request::Arithmetic { op, a, b } => Some(Reply::Value(Value::Number(arithmetic(op, a, b)))),
        Request::Print(_) => None,
        Request::Prompt(message) => {
            let mut reply = b"re: ".to_vec();
            reply.extend(message);
            Some(Reply::Text(reply))
        }
        Request::CallNative { function: NativeFn::Clock, .. } => Some(Reply::Value(num(42.0))),
        Request::RunAgent { agent, message } => {
            let mut reply = format!("{agent}: ").into_bytes();
            reply.extend(message);
            Some(Reply::Text(reply))
        }
    }
}

fn interpret(vm: &mut Vm) -> Result<ReturnValue, Halt> {
    let mut fuel = Fuel::new(FUEL_PER_GC);
    loop {
        match vm.interpret(&mut fuel)? {
            Event::Done(value) => return Ok(value),
            Event::Next => fuel = Fuel::new(FUEL_PER_GC),
            Event::Ask(request) => {
                if let Some(reply) = answer(request) {
                    vm.state.resume(reply)?;
                }
            }
        }
    }
}

fn run(vm: &mut Vm, program: Vec<(usize, Function)>) -> ReturnValue {
    vm.compile(Ok(program)).unwrap();
    interpret(vm).unwrap()
}

fn error(vm: &mut Vm, program: Vec<(usize, Function)>) -> String {
    vm.compile(Ok(program)).unwrap();
    match interpret(vm) {
        Err(Halt::Error(VmError::RuntimeError(message))) => message,
        other => panic!("{other:?}"),
    }
}

fn is_stuck(vm: &mut Vm, program: Vec<(usize, Function)>) -> bool {
    match vm.try_compile(Ok(program)) {
        Ok(_) => matches!(interpret(vm), Err(Halt::Stuck)),
        Err(Halt::Stuck) => true,
        Err(Halt::Error(e)) => panic!("{e:?}"),
    }
}

fn returning(vm: &mut Vm, name: &str) -> Vec<(usize, Function)> {
    let name = text(vm, name);
    script(vec![OpCode::GetGlobal(0), OpCode::Return], vec![name])
}

fn string(s: &str) -> ReturnValue {
    ReturnValue::String(s.as_bytes().to_vec())
}

fn number(x: f64) -> ReturnValue {
    ReturnValue::Number(x.to_bits())
}

// ---- What the host gives programs ----

#[test]
fn test_inject_variables() {
    let mut vm = Vm::new();
    vm.inject_variables({
        let mut map: HashMap<String, serde_json::Value> = HashMap::new();
        map.insert("test".into(), "abc".into());
        map.insert("test2".into(), 123.into());
        map.insert("test3".into(), true.into());
        map
    });
    let program = returning(&mut vm, "test");
    vm.compile(Ok(program)).unwrap();
    let result = interpret(&mut vm).unwrap();
    assert_eq!(result, ReturnValue::String("abc".into()));
    let program = returning(&mut vm, "test2");
    vm.compile(Ok(program)).unwrap();
    let result = interpret(&mut vm).unwrap();
    assert_eq!(result, ReturnValue::Number(123.0f64.to_bits()));
    let program = returning(&mut vm, "test3");
    vm.compile(Ok(program)).unwrap();
    let result = interpret(&mut vm).unwrap();
    assert_eq!(result, ReturnValue::Boolean(true));
}

#[test]
fn test_inject_instance() {
    let mut vm = Vm::new();
    vm.inject_instance("request", {
        let mut map: HashMap<&'static str, serde_json::Value> = HashMap::new();
        map.insert("method", "get".into());
        map.insert("code", 200.0.into());
        map.insert("test", true.into());
        map
    });
    let program = returning(&mut vm, "request");
    vm.compile(Ok(program)).unwrap();
    let result = interpret(&mut vm).unwrap();
    assert!(matches!(result, ReturnValue::Object(_)));
    assert_eq!(result.get("method").unwrap(), &ReturnValue::String("get".into()));
    assert_eq!(result.get("code").unwrap(), &ReturnValue::Number(200.0f64.to_bits()));
    assert_eq!(result.get("test").unwrap(), &ReturnValue::Boolean(true));
    assert!(result.get("abc").is_none());
}

#[test]
fn null_is_given_and_compounds_are_not() {
    let mut vm = Vm::default();
    let mut map: HashMap<String, serde_json::Value> = HashMap::new();
    map.insert("nothing".into(), serde_json::Value::Null);
    map.insert("list".into(), serde_json::Value::Array(vec![true.into()]));
    map.insert("table".into(), serde_json::Value::Object(serde_json::Map::new()));
    map.insert("half".into(), (-0.5).into());
    map.insert("large".into(), u64::MAX.into());
    vm.inject_variables(map);
    let program = returning(&mut vm, "nothing");
    assert_eq!(run(&mut vm, program), ReturnValue::Nil);
    let program = returning(&mut vm, "half");
    assert_eq!(run(&mut vm, program), number(-0.5));
    let program = returning(&mut vm, "large");
    assert_eq!(run(&mut vm, program), number(u64::MAX as f64));
    for name in ["list", "table"] {
        let mut vm2 = Vm::new();
        vm2.inject_scalars(&vec![(name.to_string(), Json::Compound)]);
        let program = returning(&mut vm2, name);
        assert_eq!(
            error(&mut vm2, program),
            format!("Undefined variable '{name}'.\n[line 1] in script\n")
        );
    }
    let program = returning(&mut vm, "list");
    assert_eq!(error(&mut vm, program), "Undefined variable 'list'.\n[line 1] in script\n");
}

#[test]
fn variables_are_given_in_order() {
    let mut vm = Vm::new();
    vm.inject_scalars(&vec![
        ("a".to_string(), Json::Number(1.0f64.to_bits())),
        ("b".to_string(), Json::String(b"x".to_vec())),
        ("a".to_string(), Json::Bool(false)),
        ("b".to_string(), Json::Compound),
    ]);
    let program = returning(&mut vm, "a");
    assert_eq!(run(&mut vm, program), ReturnValue::Boolean(false));
    let program = returning(&mut vm, "b");
    assert_eq!(run(&mut vm, program), string("x"));
}

#[test]
fn variables_that_are_not_given_stay() {
    let mut vm = Vm::new();
    vm.inject_scalars(&vec![("a".to_string(), Json::Bool(true))]);
    vm.inject_scalars(&vec![("b".to_string(), Json::Null), ("a".to_string(), Json::Compound)]);
    let program = returning(&mut vm, "a");
    assert_eq!(run(&mut vm, program), ReturnValue::Boolean(true));
}

#[test]
fn objects_have_their_fields_and_no_others() {
    let mut vm = Vm::new();
    vm.inject_object(
        "o",
        &vec![
            ("x".to_string(), Json::Null),
            ("y".to_string(), Json::Compound),
            ("z".to_string(), Json::String(b"".to_vec())),
        ],
    );
    let program = returning(&mut vm, "o");
    let result = run(&mut vm, program);
    match &result {
        ReturnValue::Object(list) => assert_eq!(list.len(), 2),
        other => panic!("{other:?}"),
    }
    assert_eq!(result.get("x"), Some(&ReturnValue::Nil));
    assert_eq!(result.get("y"), None);
    assert_eq!(result.get("z"), Some(&string("")));
}

#[test]
fn host_functions_take_their_names() {
    let mut vm = Vm::new();
    vm.inject_scalars(&vec![("clock".to_string(), Json::Bool(true))]);
    let program = returning(&mut vm, "clock");
    assert_eq!(run(&mut vm, program), ReturnValue::Opaque);
}

// ---- Programs ----

#[test]
fn functions_are_found_by_number() {
    let mut vm = Vm::new();
    let list = vec![
        (7, function(0, None, vec![], vec![OpCode::Nil, OpCode::Return], vec![])),
        (0, function(1, None, vec![], vec![OpCode::True, OpCode::Return], vec![])),
    ];
    let places = compiler::compile(Context { state: &mut vm.state }, Ok(list)).unwrap();
    assert_eq!(places.len(), 2);
    assert_eq!(places[&7], 0);
    assert_eq!(places[&0], 1);
}

#[test]
fn generator_errors_are_handed_on() {
    let mut vm = Vm::new();
    let r = compiler::compile(Context { state: &mut vm.state }, Err(VmError::CompileError));
    assert!(matches!(r, Err(VmError::CompileError)));
    let r = vm.compile(Err(VmError::RuntimeError("no".to_string())));
    assert!(matches!(r, Err(VmError::RuntimeError(s)) if s == "no"));
    assert_eq!(vm.state.frame_count(), 0);
}

#[test]
fn a_later_program_replaces_an_earlier_one() {
    let mut vm = Vm::new();
    let first = script(vec![OpCode::True, OpCode::Return], vec![]);
    assert_eq!(run(&mut vm, first), ReturnValue::Boolean(true));
    let second = script(vec![OpCode::Nil, OpCode::Return], vec![]);
    assert_eq!(run(&mut vm, second), ReturnValue::Nil);
    assert_eq!(vm.state.frame_count(), 0);
}

#[test]
fn code_without_its_parts_is_refused() {
    let mut vm = Vm::new();
    assert!(is_stuck(&mut vm, vec![]));
    assert!(is_stuck(&mut vm, script(vec![OpCode::Return], vec![Value::String(1000)])));
    let nameless = function(0, Some(1000), vec![], vec![OpCode::Nil, OpCode::Return], vec![]);
    assert!(is_stuck(&mut vm, vec![(0, nameless)]));
    for code in [
        vec![],
        vec![OpCode::Constant(0)],
        vec![OpCode::Pop, OpCode::Pop],
        vec![OpCode::Closure(9)],
        vec![OpCode::GetUpvalue(0)],
        vec![OpCode::Loop(2)],
        vec![OpCode::Nil, OpCode::Prompt],
        vec![OpCode::Class(0)],
    ] {
        let mut vm = Vm::new();
        assert!(is_stuck(&mut vm, script(code, vec![])));
    }
}

#[test]
fn a_full_stack_is_the_end() {
    let mut vm = Vm::new();
    assert!(is_stuck(&mut vm, script(vec![OpCode::Nil, OpCode::Loop(2)], vec![])));
    let mut vm = Vm::new();
    let mut code = vec![OpCode::Nil; STACK_MAX_SIZE - 1];
    code.push(OpCode::Return);
    assert_eq!(run(&mut vm, script(code, vec![])), ReturnValue::Nil);
}

// ---- Expressions ----

#[test]
fn numbers_are_computed() {
    let mut vm = Vm::new();
    // (1 + 2) * 4 - 10 / 4
    let code = vec![
        OpCode::Constant(0),
        OpCode::Constant(1),
        OpCode::Add,
        OpCode::Constant(2),
        OpCode::Multiply,
        OpCode::Constant(3),
        OpCode::Constant(2),
        OpCode::Divide,
        OpCode::Subtract,
        OpCode::Return,
    ];
    let constants = vec![num(1.0), num(2.0), num(4.0), num(10.0)];
    assert_eq!(run(&mut vm, script(code, constants)), number(9.5));
}

#[test]
fn requests_hold_the_operands_in_order() {
    let mut vm = Vm::new();
    let code = vec![OpCode::Constant(0), OpCode::Constant(1), OpCode::Subtract, OpCode::Return];
    vm.compile(Ok(script(code, vec![num(5.0), num(3.0)]))).unwrap();
    let mut fuel = Fuel::new(10);
    match vm.interpret(&mut fuel).unwrap() {
        Event::Ask(Request::Arithmetic { op, a, b }) => {
            assert_eq!(op, ArithmeticOp::Subtract);
            assert_eq!(f64::from_bits(a), 5.0);
            assert_eq!(f64::from_bits(b), 3.0);
        }
        other => panic!("{other:?}"),
    }
    assert!(matches!(vm.state.resume(Reply::Value(Value::Instance(0))), Err(Halt::Stuck)));
    assert!(matches!(vm.state.resume(Reply::Value(num(2.0))), Ok(Event::Next)));
    assert_eq!(interpret(&mut vm).unwrap(), number(2.0));
}

#[test]
fn values_are_compared() {
    let mut vm = Vm::new();
    for (op, a, b, expected) in [
        (OpCode::Less, 1.0, 2.0, true),
        (OpCode::Less, 2.0, 1.0, false),
        (OpCode::Less, 1.0, 1.0, false),
        (OpCode::Greater, 2.0, 1.0, true),
        (OpCode::Greater, 1.0, 2.0, false),
        (OpCode::Greater, f64::NAN, 2.0, false),
        (OpCode::Equal, 0.0, -0.0, true),
        (OpCode::Equal, f64::NAN, f64::NAN, false),
    ] {
        let code = vec![OpCode::Constant(0), OpCode::Constant(1), op, OpCode::Return];
        let result = run(&mut vm, script(code, vec![num(a), num(b)]));
        assert_eq!(result, ReturnValue::Boolean(expected));
    }
}

#[test]
fn values_are_negated() {
    let mut vm = Vm::new();
    let code = vec![OpCode::Constant(0), OpCode::Negate, OpCode::Return];
    assert_eq!(run(&mut vm, script(code, vec![num(1.5)])), number(-1.5));
    let code = vec![OpCode::Nil, OpCode::Not, OpCode::Return];
    assert_eq!(run(&mut vm, script(code, vec![])), ReturnValue::Boolean(true));
    let code = vec![OpCode::Constant(0), OpCode::Not, OpCode::Return];
    assert_eq!(run(&mut vm, script(code, vec![num(0.0)])), ReturnValue::Boolean(false));
}

#[test]
fn strings_are_joined() {
    let mut vm = Vm::new();
    let constants = vec![text(&mut vm, "ab"), text(&mut vm, "c\u{e9}")];
    let code = vec![OpCode::Constant(0), OpCode::Constant(1), OpCode::Add, OpCode::Return];
    assert_eq!(run(&mut vm, script(code.clone(), constants)), string("abc\u{e9}"));
    let raw = Value::String(vm.state.intern(b"\xff"));
    let constants = vec![raw, text(&mut vm, "a")];
    assert_eq!(run(&mut vm, script(code, constants)), string("\u{fffd}a"));
}

#[test]
fn equal_strings_are_one() {
    let mut vm = Vm::new();
    let constants = vec![text(&mut vm, "ab"), text(&mut vm, "c"), text(&mut vm, "abc")];
    let code = vec![
        OpCode::Constant(0),
        OpCode::Constant(1),
        OpCode::Add,
        OpCode::Constant(2),
        OpCode::Equal,
        OpCode::Return,
    ];
    assert_eq!(run(&mut vm, script(code, constants)), ReturnValue::Boolean(true));
}

#[test]
fn operands_of_the_wrong_kind_fail() {
    for (code, message) in [
        (
            vec![OpCode::Nil, OpCode::True, OpCode::Add],
            "Operands must be two numbers or two strings.\n[line 3] in script\n",
        ),
        (
            vec![OpCode::Nil, OpCode::True, OpCode::Subtract],
            "Operands must be numbers.\n[line 3] in script\n",
        ),
        (
            vec![OpCode::Nil, OpCode::Constant(0), OpCode::Less],
            "Operands must be numbers.\n[line 3] in script\n",
        ),
        (vec![OpCode::Nil, OpCode::Negate], "Operand must be a number.\n[line 2] in script\n"),
    ] {
        let mut vm = Vm::new();
        assert_eq!(error(&mut vm, script(code, vec![num(1.0)])), message);
    }
}

#[test]
fn values_are_printed_by_the_host() {
    let mut vm = Vm::new();
    let code = vec![OpCode::True, OpCode::Print, OpCode::Nil, OpCode::Return];
    vm.compile(Ok(script(code, vec![]))).unwrap();
    let mut fuel = Fuel::new(10);
    match vm.interpret(&mut fuel).unwrap() {
        Event::Ask(Request::Print(value)) => assert!(value.equals(&Value::Boolean(true))),
        other => panic!("{other:?}"),
    }
    assert_eq!(vm.state.return_value(Value::Boolean(true)), ReturnValue::Boolean(true));
    assert_eq!(interpret(&mut vm).unwrap(), ReturnValue::Nil);
}

// ---- Variables ----

#[test]
fn globals_are_defined_set_and_read() {
    let mut vm = Vm::new();
    let constants = vec![text(&mut vm, "x"), num(1.0), num(2.0)];
    let code = vec![
        OpCode::Constant(1),
        OpCode::DefineGlobal(0),
        OpCode::GetGlobal(0),
        OpCode::Constant(2),
        OpCode::SetGlobal(0),
        OpCode::Pop,
        OpCode::GetGlobal(0),
        OpCode::Add,
        OpCode::Return,
    ];
    assert_eq!(run(&mut vm, script(code, constants)), number(3.0));
}

#[test]
fn undefined_globals_stay_undefined() {
    let mut vm = Vm::new();
    let name = text(&mut vm, "x");
    let code = vec![OpCode::Nil, OpCode::SetGlobal(0)];
    assert_eq!(
        error(&mut vm, script(code, vec![name])),
        "Undefined variable 'x'.\n[line 2] in script\n"
    );
    let mut vm = Vm::new();
    let program = returning(&mut vm, "x");
    assert_eq!(error(&mut vm, program), "Undefined variable 'x'.\n[line 1] in script\n");
}

#[test]
fn names_have_to_be_strings() {
    for op in [OpCode::DefineGlobal(0), OpCode::GetGlobal(0), OpCode::SetGlobal(0)] {
        let mut vm = Vm::new();
        let message = error(&mut vm, script(vec![OpCode::Nil, op], vec![Value::Nil]));
        assert_eq!(message, "cannot convert to string");
    }
}

#[test]
fn locals_are_slots_of_the_call() {
    let mut vm = Vm::new();
    let code = vec![
        OpCode::True,
        OpCode::Constant(0),
        OpCode::SetLocal(1),
        OpCode::Pop,
        OpCode::GetLocal(1),
        OpCode::Return,
    ];
    assert_eq!(run(&mut vm, script(code, vec![num(8.0)])), number(8.0));
}

#[test]
fn jumps_go_forwards_and_back() {
    let mut vm = Vm::new();
    // let i = 0; while i < 5 { i = i + 1 } return i
    let code = vec![
        OpCode::Constant(0),
        OpCode::GetLocal(1),
        OpCode::Constant(1),
        OpCode::Less,
        OpCode::JumpIfFalse(7),
        OpCode::Pop,
        OpCode::GetLocal(1),
        OpCode::Constant(2),
        OpCode::Add,
        OpCode::SetLocal(1),
        OpCode::Pop,
        OpCode::Loop(11),
        OpCode::Pop,
        OpCode::GetLocal(1),
        OpCode::Return,
    ];
    let constants = vec![num(0.0), num(5.0), num(1.0)];
    assert_eq!(run(&mut vm, script(code, constants)), number(5.0));
    let code = vec![OpCode::Jump(1), OpCode::Nil, OpCode::True, OpCode::Return];
    assert_eq!(run(&mut vm, script(code, vec![])), ReturnValue::Boolean(true));
}

// ---- Calls ----

/// A function that subtracts its second argument from its first.
fn difference(vm: &mut Vm) -> Function {
    let name = Some(place(vm, "difference"));
    let code = vec![OpCode::GetLocal(1), OpCode::GetLocal(2), OpCode::Subtract, OpCode::Return];
    function(2, name, vec![], code, vec![])
}

#[test]
fn calls_take_arguments_and_give_a_value() {
    let mut vm = Vm::new();
    let f = difference(&mut vm);
    let code = vec![
        OpCode::True,
        OpCode::Closure(1),
        OpCode::Constant(0),
        OpCode::Constant(1),
        OpCode::Call(2),
        OpCode::Return,
    ];
    let mut program = script(code, vec![num(7.0), num(2.0)]);
    program.push((1, f));
    assert_eq!(run(&mut vm, program), number(5.0));
}

#[test]
fn the_number_of_arguments_has_to_fit() {
    let mut vm = Vm::new();
    let f = difference(&mut vm);
    let mut program = script(vec![OpCode::Closure(1), OpCode::Nil, OpCode::Call(1)], vec![]);
    program.push((1, f));
    assert_eq!(
        error(&mut vm, program),
        "Expected 2 arguments but got 1.\n[line 3] in script\n"
    );
}

#[test]
fn errors_tell_the_calls_under_way() {
    let mut vm = Vm::new();
    let inner = Some(place(&mut vm, "inner"));
    let outer = Some(place(&mut vm, "outer"));
    let code = vec![OpCode::Nil, OpCode::Closure(1), OpCode::Call(0)];
    let mut program = script(code, vec![]);
    let code = vec![OpCode::Closure(2), OpCode::Call(0)];
    program.push((1, function(0, outer, vec![], code, vec![])));
    let code = vec![OpCode::Nil, OpCode::Negate];
    program.push((2, function(0, inner, vec![], code, vec![])));
    assert_eq!(
        error(&mut vm, program),
        "Operand must be a number.\n[line 2] in inner\n\n[line 2] in outer\n\n[line 3] in script\n"
    );
}

#[test]
fn calls_are_limited() {
    let mut vm = Vm::new();
    let name = text(&mut vm, "f");
    let f = Some(place(&mut vm, "f"));
    let code = vec![
        OpCode::Closure(1),
        OpCode::DefineGlobal(0),
        OpCode::GetGlobal(0),
        OpCode::Call(0),
    ];
    let mut program = script(code, vec![name]);
    let code = vec![OpCode::GetGlobal(0), OpCode::Call(0)];
    program.push((1, function(0, f, vec![], code, vec![name])));
    let message = error(&mut vm, program);
    assert!(message.starts_with("Stack overflow.\n[line 2] in f\n"));
    assert!(message.ends_with("\n[line 4] in script\n"));
    assert_eq!(message.matches("] in f\n").count(), FRAME_MAX_SIZE - 1);
}

#[test]
fn only_some_values_can_be_called() {
    let mut vm = Vm::new();
    assert_eq!(
        error(&mut vm, script(vec![OpCode::Nil, OpCode::Call(0)], vec![])),
        "Can only call functions and classes.\n[line 2] in script\n"
    );
}

#[test]
fn host_functions_give_a_value() {
    let mut vm = Vm::new();
    let name = text(&mut vm, "clock");
    let code = vec![
        OpCode::True,
        OpCode::GetGlobal(0),
        OpCode::Nil,
        OpCode::False,
        OpCode::Call(2),
        OpCode::Return,
    ];
    vm.compile(Ok(script(code, vec![name]))).unwrap();
    let mut fuel = Fuel::new(100);
    match vm.interpret(&mut fuel).unwrap() {
        Event::Ask(Request::CallNative { function, arguments }) => {
            assert_eq!(function, NativeFn::Clock);
            assert_eq!(arguments.len(), 2);
            assert!(arguments[0].equals(&Value::Nil));
            assert!(arguments[1].equals(&Value::Boolean(false)));
        }
        other => panic!("{other:?}"),
    }
    vm.state.resume(Reply::Value(num(3.0))).unwrap();
    assert_eq!(interpret(&mut vm).unwrap(), number(3.0));
}

#[test]
fn models_and_agents_answer_with_text() {
    let mut vm = Vm::new();
    let constants = vec![Value::Agent(5), text(&mut vm, "hi"), text(&mut vm, "run")];
    let code = vec![OpCode::Constant(1), OpCode::Prompt, OpCode::Return];
    assert_eq!(run(&mut vm, script(code, constants.clone())), string("re: hi"));
    let code = vec![OpCode::Agent(0), OpCode::Constant(1), OpCode::Invoke(2, 1), OpCode::Return];
    assert_eq!(run(&mut vm, script(code, constants.clone())), string("5: hi"));
    let code = vec![OpCode::Agent(0), OpCode::Call(0), OpCode::Equal, OpCode::True, OpCode::Return];
    assert_eq!(run(&mut vm, script(code, constants.clone())), ReturnValue::Boolean(true));
    let mut vm = Vm::new();
    let constants = vec![Value::Agent(5), text(&mut vm, "walk")];
    let code = vec![OpCode::Agent(0), OpCode::Invoke(1, 0)];
    assert_eq!(
        error(&mut vm, script(code, constants)),
        "Agent have no methods called 'walk'.\n[line 2] in script\n"
    );
}

// ---- Captured variables ----

#[test]
fn captured_variables_outlive_their_call() {
    let mut vm = Vm::new();
    let counter = text(&mut vm, "counter");
    // fn make() { let n = 10; return fn() { n = n + 1; return n } }
    let make = function(
        0,
        Some(place(&mut vm, "make")),
        vec![],
        vec![OpCode::Constant(0), OpCode::Closure(2), OpCode::Return],
        vec![num(10.0)],
    );
    let count = function(
        0,
        Some(place(&mut vm, "count")),
        vec![Upvalue { index: 1, is_local: true }],
        vec![
            OpCode::GetUpvalue(0),
            OpCode::Constant(0),
            OpCode::Add,
            OpCode::SetUpvalue(0),
            OpCode::Return,
        ],
        vec![num(1.0)],
    );
    let code = vec![
        OpCode::Closure(1),
        OpCode::Call(0),
        OpCode::DefineGlobal(0),
        OpCode::GetGlobal(0),
        OpCode::Call(0),
        OpCode::Pop,
        OpCode::GetGlobal(0),
        OpCode::Call(0),
        OpCode::Return,
    ];
    let mut program = script(code, vec![counter]);
    program.push((1, make));
    program.push((2, count));
    assert_eq!(run(&mut vm, program), number(12.0));
}

#[test]
fn closures_share_a_captured_variable() {
    let mut vm = Vm::new();
    let reader = |vm: &mut Vm| {
        function(
            0,
            Some(place(vm, "reader")),
            vec![Upvalue { index: 1, is_local: true }],
            vec![OpCode::GetUpvalue(0), OpCode::Return],
            vec![],
        )
    };
    let writer = function(
        0,
        Some(place(&mut vm, "writer")),
        vec![Upvalue { index: 1, is_local: true }],
        vec![OpCode::Constant(0), OpCode::SetUpvalue(0), OpCode::Return],
        vec![num(2.0)],
    );
    // let n = 1; let r = reader; let w = writer; w(); return r()
    let code = vec![
        OpCode::Constant(0),
        OpCode::Closure(1),
        OpCode::Closure(2),
        OpCode::Call(0),
        OpCode::Pop,
        OpCode::Call(0),
        OpCode::Return,
    ];
    let mut program = script(code, vec![num(1.0)]);
    program.push((1, reader(&mut vm)));
    program.push((2, writer));
    assert_eq!(run(&mut vm, program), number(2.0));
}

#[test]
fn closed_variables_keep_their_value() {
    let mut vm = Vm::new();
    let reader = function(
        0,
        Some(place(&mut vm, "reader")),
        vec![Upvalue { index: 1, is_local: true }],
        vec![OpCode::GetUpvalue(0), OpCode::Return],
        vec![],
    );
    let f = text(&mut vm, "f");
    // { let n = 4; f = reader } let m = 5; return f()
    let code = vec![
        OpCode::Constant(0),
        OpCode::Closure(1),
        OpCode::DefineGlobal(2),
        OpCode::CloseUpvalue,
        OpCode::Constant(1),
        OpCode::GetGlobal(2),
        OpCode::Call(0),
        OpCode::Return,
    ];
    let mut program = script(code, vec![num(4.0), num(5.0), f]);
    program.push((1, reader));
    assert_eq!(run(&mut vm, program), number(4.0));
}

#[test]
fn open_variables_are_read_from_their_slot() {
    let mut vm = Vm::new();
    let reader = function(
        0,
        Some(place(&mut vm, "reader")),
        vec![Upvalue { index: 1, is_local: true }, Upvalue { index: 2, is_local: true }],
        vec![OpCode::GetUpvalue(0), OpCode::GetUpvalue(1), OpCode::Subtract, OpCode::Return],
        vec![],
    );
    // let a = 1; let b = 2; let r = reader; a = 9; return r()
    let code = vec![
        OpCode::Constant(0),
        OpCode::Constant(1),
        OpCode::Closure(1),
        OpCode::Constant(2),
        OpCode::SetLocal(1),
        OpCode::Pop,
        OpCode::Call(0),
        OpCode::Return,
    ];
    let mut program = script(code, vec![num(1.0), num(2.0), num(9.0)]);
    program.push((1, reader));
    assert_eq!(run(&mut vm, program), number(7.0));
}

#[test]
fn variables_are_closed_from_a_slot_on() {
    let mut vm = Vm::new();
    let reader = |vm: &mut Vm, index: usize| {
        function(
            0,
            Some(place(vm, "reader")),
            vec![Upvalue { index, is_local: true }],
            vec![OpCode::GetUpvalue(0), OpCode::Return],
            vec![],
        )
    };
    let names = [text(&mut vm, "a"), text(&mut vm, "b")];
    // let x = 1; { let y = 2; a = reader of x; b = reader of y } x = 9; return a() - b()
    let code = vec![
        OpCode::Constant(0),
        OpCode::Constant(1),
        OpCode::Closure(1),
        OpCode::DefineGlobal(3),
        OpCode::Closure(2),
        OpCode::DefineGlobal(4),
        OpCode::CloseUpvalue,
        OpCode::Constant(2),
        OpCode::SetLocal(1),
        OpCode::GetGlobal(3),
        OpCode::Call(0),
        OpCode::GetGlobal(4),
        OpCode::Call(0),
        OpCode::Subtract,
        OpCode::Return,
    ];
    let constants = vec![num(1.0), num(2.0), num(9.0), names[0], names[1]];
    let mut program = script(code, constants);
    program.push((1, reader(&mut vm, 1)));
    program.push((2, reader(&mut vm, 2)));
    assert_eq!(run(&mut vm, program), number(7.0));
}

#[test]
fn set_upvalue_takes_the_value_below_the_top() {
    let mut vm = Vm::new();
    // The second captured variable takes the value one below the topmost.
    let writer = function(
        0,
        Some(place(&mut vm, "writer")),
        vec![Upvalue { index: 1, is_local: true }, Upvalue { index: 2, is_local: true }],
        vec![
            OpCode::Constant(0),
            OpCode::Constant(1),
            OpCode::SetUpvalue(1),
            OpCode::GetUpvalue(1),
            OpCode::Return,
        ],
        vec![num(30.0), num(40.0)],
    );
    let code = vec![
        OpCode::True,
        OpCode::False,
        OpCode::Closure(1),
        OpCode::Call(0),
        OpCode::GetLocal(2),
        OpCode::Equal,
        OpCode::Return,
    ];
    let mut program = script(code, vec![]);
    program.push((1, writer));
    assert_eq!(run(&mut vm, program), ReturnValue::Boolean(true));
}

#[test]
fn inner_closures_pass_on_captured_variables() {
    let mut vm = Vm::new();
    let middle = function(
        0,
        Some(place(&mut vm, "middle")),
        vec![Upvalue { index: 1, is_local: true }],
        vec![OpCode::Closure(2), OpCode::Call(0), OpCode::Return],
        vec![],
    );
    let inner = function(
        0,
        Some(place(&mut vm, "inner")),
        vec![Upvalue { index: 0, is_local: false }],
        vec![OpCode::GetUpvalue(0), OpCode::Return],
        vec![],
    );
    let code = vec![OpCode::Constant(0), OpCode::Closure(1), OpCode::Call(0), OpCode::Return];
    let mut program = script(code, vec![num(6.0)]);
    program.push((1, middle));
    program.push((2, inner));
    assert_eq!(run(&mut vm, program), number(6.0));
}

// ---- Classes ----

#[test]
fn instances_have_fields_and_methods() {
    let mut vm = Vm::new();
    let names = vec![
        text(&mut vm, "Point"),
        text(&mut vm, "init"),
        text(&mut vm, "x"),
        text(&mut vm, "get"),
        num(3.0),
    ];
    let init = function(
        1,
        Some(place(&mut vm, "init")),
        vec![],
        vec![
            OpCode::GetLocal(0),
            OpCode::GetLocal(1),
            OpCode::SetProperty(2),
            OpCode::Pop,
            OpCode::GetLocal(0),
            OpCode::Return,
        ],
        names.clone(),
    );
    let get = function(
        0,
        Some(place(&mut vm, "get")),
        vec![],
        vec![OpCode::GetLocal(0), OpCode::GetProperty(2), OpCode::Return],
        names.clone(),
    );
    let class = vec![
        OpCode::Class(0),
        OpCode::Closure(1),
        OpCode::Method(1),
        OpCode::Closure(2),
        OpCode::Method(3),
        OpCode::Constant(4),
        OpCode::Call(1),
    ];
    // Point(3).get()
    let mut code = class.clone();
    code.extend([OpCode::Invoke(3, 0), OpCode::Return]);
    let mut program = script(code, names.clone());
    program.push((1, init));
    program.push((2, get));
    assert_eq!(run(&mut vm, program), number(3.0));
}

#[test]
fn methods_are_bound_to_their_instance() {
    let mut vm = Vm::new();
    let names = vec![text(&mut vm, "C"), text(&mut vm, "me"), text(&mut vm, "x"), num(5.0)];
    let me = function(
        0,
        Some(place(&mut vm, "me")),
        vec![],
        vec![OpCode::GetLocal(0), OpCode::GetProperty(2), OpCode::Return],
        names.clone(),
    );
    // let c = C(); c.x = 5; let m = c.me; return m()
    let code = vec![
        OpCode::Class(0),
        OpCode::Closure(1),
        OpCode::Method(1),
        OpCode::Call(0),
        OpCode::GetLocal(1),
        OpCode::Constant(3),
        OpCode::SetProperty(2),
        OpCode::Pop,
        OpCode::GetProperty(1),
        OpCode::Call(0),
        OpCode::Return,
    ];
    let mut program = script(code, names);
    program.push((1, me));
    assert_eq!(run(&mut vm, program), number(5.0));
}

#[test]
fn fields_come_before_methods() {
    let mut vm = Vm::new();
    let names = vec![text(&mut vm, "C"), text(&mut vm, "m"), num(1.0)];
    let m = Some(place(&mut vm, "m"));
    let method = function(0, m, vec![], vec![OpCode::Nil, OpCode::Return], vec![]);
    let field = function(0, m, vec![], vec![OpCode::True, OpCode::Return], vec![]);
    let code = vec![
        OpCode::Class(0),
        OpCode::Closure(1),
        OpCode::Method(1),
        OpCode::Call(0),
        OpCode::GetLocal(1),
        OpCode::Closure(2),
        OpCode::SetProperty(1),
        OpCode::Pop,
        OpCode::Invoke(1, 0),
        OpCode::Return,
    ];
    let mut program = script(code, names);
    program.push((1, method));
    program.push((2, field));
    assert_eq!(run(&mut vm, program), ReturnValue::Boolean(true));
}

/// A class with methods `a` (nil) and `b` (true), and a subclass with `b` (false)
/// and `c` (7); then the code, in slot 1 the superclass and in slot 2 the subclass.
fn family(vm: &mut Vm, code: Vec<OpCode>) -> Vec<(usize, Function)> {
    let names = vec![
        text(vm, "Super"),
        text(vm, "Sub"),
        text(vm, "a"),
        text(vm, "b"),
        text(vm, "c"),
        num(7.0),
    ];
    let name = Some(place(vm, "method"));
    let giving = |op| function(0, name, vec![], vec![op, OpCode::Return], names.clone());
    let mut all = vec![
        OpCode::Class(0),
        OpCode::Closure(1),
        OpCode::Method(2),
        OpCode::Closure(2),
        OpCode::Method(3),
        OpCode::Class(1),
        OpCode::Closure(3),
        OpCode::Method(3),
        OpCode::Closure(4),
        OpCode::Method(4),
        OpCode::GetLocal(1),
        OpCode::GetLocal(2),
        OpCode::Inherit,
        OpCode::Pop,
    ];
    all.extend(code);
    let mut program = script(all, names.clone());
    program.push((1, giving(OpCode::Nil)));
    program.push((2, giving(OpCode::True)));
    program.push((3, giving(OpCode::False)));
    program.push((4, giving(OpCode::Constant(5))));
    program
}

#[test]
fn a_subclass_has_the_methods_of_its_superclass() {
    for (name, expected) in [
        (2u8, ReturnValue::Nil),
        (3, ReturnValue::Boolean(true)),
        (4, number(7.0)),
    ] {
        let mut vm = Vm::new();
        let program = family(
            &mut vm,
            vec![OpCode::GetLocal(2), OpCode::Call(0), OpCode::Invoke(name, 0), OpCode::Return],
        );
        assert_eq!(run(&mut vm, program), expected);
    }
    let mut vm = Vm::new();
    let program = family(
        &mut vm,
        vec![OpCode::GetLocal(1), OpCode::Call(0), OpCode::Invoke(4, 0), OpCode::Return],
    );
    assert!(error(&mut vm, program).starts_with("Undefined property 'c'.\n"));
}

#[test]
fn methods_of_the_superclass_are_reached_through_super() {
    let mut vm = Vm::new();
    let program = family(
        &mut vm,
        vec![
            OpCode::GetLocal(2),
            OpCode::Call(0),
            OpCode::GetLocal(1),
            OpCode::SuperInvoke(3, 0),
            OpCode::Return,
        ],
    );
    assert_eq!(run(&mut vm, program), ReturnValue::Boolean(true));
    let mut vm = Vm::new();
    let program = family(
        &mut vm,
        vec![
            OpCode::GetLocal(2),
            OpCode::Call(0),
            OpCode::GetLocal(1),
            OpCode::GetSuper(2),
            OpCode::Call(0),
            OpCode::Return,
        ],
    );
    assert_eq!(run(&mut vm, program), ReturnValue::Nil);
}

#[test]
fn classes_and_instances_fail_with_their_messages() {
    let cases: Vec<(Vec<OpCode>, &str)> = vec![
        (
            vec![OpCode::Nil, OpCode::GetProperty(1)],
            "Only instances have properties.\n[line 2] in script\n",
        ),
        (
            vec![OpCode::Nil, OpCode::Nil, OpCode::SetProperty(1)],
            "Only instances have fields.\n[line 3] in script\n",
        ),
        (
            vec![OpCode::Nil, OpCode::Invoke(1, 0)],
            "Only instances have methods.\n[line 2] in script\n",
        ),
        (
            vec![OpCode::Class(0), OpCode::Call(0), OpCode::GetProperty(1)],
            "Undefined property 'm'.\n[line 3] in script\n",
        ),
        (
            vec![OpCode::Class(0), OpCode::Call(0), OpCode::Invoke(1, 0)],
            "Undefined property 'm'.\n[line 3] in script\n",
        ),
        (
            vec![OpCode::Class(0), OpCode::Nil, OpCode::Call(1)],
            "Expected 0 arguments but got 1.\n[line 3] in script\n",
        ),
        (
            vec![OpCode::Nil, OpCode::Class(0), OpCode::Inherit],
            "Superclass must be a class.\n[line 3] in script\n",
        ),
        (vec![OpCode::Class(0), OpCode::Nil, OpCode::Inherit], "cannot convert to class"),
        (vec![OpCode::Nil, OpCode::GetSuper(1)], "cannot convert to class"),
        (vec![OpCode::Nil, OpCode::SuperInvoke(1, 0)], "cannot convert to class"),
        (
            vec![
                OpCode::Class(0),
                OpCode::Nil,
                OpCode::Method(1),
                OpCode::Call(0),
                OpCode::GetProperty(1),
            ],
            "cannot convert to closure",
        ),
        (
            vec![
                OpCode::Class(0),
                OpCode::Nil,
                OpCode::Method(1),
                OpCode::Call(0),
                OpCode::Invoke(1, 0),
            ],
            "cannot convert to closure",
        ),
    ];
    for (code, message) in cases {
        let mut vm = Vm::new();
        let names = vec![text(&mut vm, "C"), text(&mut vm, "m")];
        assert_eq!(error(&mut vm, script(code, names)), message);
    }
}

#[test]
fn a_class_cannot_inherit_from_itself() {
    let mut vm = Vm::new();
    let names = vec![text(&mut vm, "C")];
    let code = vec![OpCode::Class(0), OpCode::GetLocal(1), OpCode::Inherit];
    assert!(is_stuck(&mut vm, script(code, names)));
}

#[test]
fn instances_are_returned_with_their_fields() {
    let mut vm = Vm::new();
    let names =
        vec![text(&mut vm, "C"), text(&mut vm, "x"), text(&mut vm, "v"), text(&mut vm, "y")];
    let code = vec![
        OpCode::Class(0),
        OpCode::Call(0),
        OpCode::GetLocal(1),
        OpCode::Constant(2),
        OpCode::SetProperty(1),
        OpCode::Pop,
        OpCode::GetLocal(1),
        OpCode::Class(0),
        OpCode::SetProperty(3),
        OpCode::Pop,
        OpCode::Return,
    ];
    let result = run(&mut vm, script(code, names));
    assert_eq!(result.get("x"), Some(&string("v")));
    assert_eq!(result.get("y"), Some(&ReturnValue::Opaque));
    assert_eq!(result.get("v"), None);
}

// ---- Budgets and evaluation ----

#[test]
fn a_run_stops_when_its_budget_is_spent() {
    let mut vm = Vm::new();
    vm.compile(Ok(script(vec![OpCode::Loop(1)], vec![]))).unwrap();
    let mut fuel = Fuel::new(1000);
    assert!(matches!(vm.interpret(&mut fuel), Ok(Event::Next)));
    assert!(!fuel.should_continue());
    let mut fuel = Fuel::new(0);
    assert!(matches!(vm.state.step(&mut fuel), Ok(Event::Next)));
    assert_eq!(vm.state.frame_count(), 1);
}

#[test]
fn budgets_can_be_cut() {
    for size in 1..8 {
        let mut vm = Vm::new();
        let code = vec![OpCode::Nil, OpCode::Not, OpCode::Not, OpCode::Not, OpCode::Return];
        vm.compile(Ok(script(code, vec![]))).unwrap();
        let mut legs = 0;
        let result = loop {
            let mut fuel = Fuel::new(size);
            match vm.interpret(&mut fuel).unwrap() {
                Event::Done(value) => break value,
                Event::Next => legs += 1,
                Event::Ask(request) => panic!("{request:?}"),
            }
        };
        assert_eq!(result, ReturnValue::Boolean(true));
        assert_eq!(legs, 4 / size);
    }
}

#[test]
fn requests_take_from_the_budget() {
    let mut vm = Vm::new();
    let code = vec![OpCode::Nil, OpCode::Print, OpCode::Nil, OpCode::Return];
    vm.compile(Ok(script(code, vec![]))).unwrap();
    let mut fuel = Fuel::new(2);
    assert!(matches!(vm.interpret(&mut fuel), Ok(Event::Ask(Request::Print(_)))));
    assert!(!fuel.should_continue());
}

#[test]
fn functions_can_be_evaluated() {
    let mut vm = Vm::new();
    let twice = function(
        0,
        Some(place(&mut vm, "twice")),
        vec![],
        vec![OpCode::Closure(2), OpCode::Call(0), OpCode::Return],
        vec![],
    );
    let name = Some(place(&mut vm, "inner"));
    let inner = function(0, name, vec![], vec![OpCode::True, OpCode::Return], vec![]);
    let mut program = script(vec![OpCode::Nil, OpCode::Return], vec![]);
    program.push((1, twice));
    program.push((2, inner));
    vm.compile(Ok(program)).unwrap();
    assert_eq!(vm.state.frame_count(), 1);
    assert_eq!(vm.state.get_chunk(1).unwrap(), 1);
    let mut fuel = Fuel::new(100);
    match vm.state.eval_function(1, &mut fuel).unwrap() {
        Event::Done(value) => assert_eq!(value, ReturnValue::Boolean(true)),
        other => panic!("{other:?}"),
    }
    assert_eq!(vm.state.frame_count(), 1);
    assert_eq!(interpret(&mut vm).unwrap(), ReturnValue::Nil);
}

#[test]
fn evaluation_goes_on_after_a_request() {
    let mut vm = Vm::new();
    let sum = function(
        0,
        Some(place(&mut vm, "sum")),
        vec![],
        vec![OpCode::Constant(0), OpCode::Constant(0), OpCode::Add, OpCode::Return],
        vec![num(4.0)],
    );
    let mut program = script(vec![OpCode::Nil, OpCode::Return], vec![]);
    program.push((1, sum));
    vm.compile(Ok(program)).unwrap();
    let frames = vm.state.frame_count();
    let mut fuel = Fuel::new(100);
    let mut event = vm.state.try_eval_function(1, &mut fuel).unwrap();
    let value = loop {
        match event {
            Event::Done(value) => break value,
            Event::Next => {}
            Event::Ask(request) => {
                if let Some(reply) = answer(request) {
                    vm.state.resume(reply).unwrap();
                }
            }
        }
        event = vm.state.try_run(frames, &mut fuel).unwrap();
    };
    assert_eq!(value, number(8.0));
    assert_eq!(vm.state.frame_count(), frames);
    assert!(matches!(vm.state.try_eval_function(9, &mut fuel), Err(Halt::Stuck)));
}

#[test]
fn single_instructions_can_be_executed() {
    let mut vm = Vm::new();
    vm.compile(Ok(script(vec![OpCode::True, OpCode::Return], vec![]))).unwrap();
    assert!(matches!(vm.state.dispatch_next(0), Ok(Event::Next)));
    match vm.state.dispatch_next(0).unwrap() {
        Event::Done(value) => assert_eq!(value, ReturnValue::Boolean(true)),
        other => panic!("{other:?}"),
    }
    assert!(matches!(vm.state.try_dispatch_next(0), Err(Halt::Stuck)));
}

// ---- Programs and requests ----

#[test]
fn answers_go_on_with_what_is_left() {
    // 1 + 2 + 3, on every budget and with every request answered on the way.
    let code = vec![
        OpCode::Constant(0),
        OpCode::Constant(1),
        OpCode::Add,
        OpCode::Constant(2),
        OpCode::Add,
        OpCode::Return,
    ];
    for size in 1..10 {
        let mut vm = Vm::new();
        let constants = vec![num(1.0), num(2.0), num(3.0)];
        vm.compile(Ok(script(code.clone(), constants))).unwrap();
        let mut cut = 0;
        let mut fuel = Fuel::new(size);
        let mut event = vm.interpret(&mut fuel).unwrap();
        let value = loop {
            match event {
                Event::Done(value) => break value,
                Event::Next => {
                    assert!(!fuel.should_continue());
                    cut += 1;
                    fuel = Fuel::new(size);
                    event = vm.interpret(&mut fuel).unwrap();
                }
                Event::Ask(request) => event = vm.answer(answer(request), &mut fuel).unwrap(),
            }
        };
        assert_eq!(value, number(6.0));
        assert_eq!(cut, 5 / size);
    }
}

#[test]
fn printing_takes_no_answer() {
    let mut vm = Vm::new();
    let code = vec![OpCode::True, OpCode::Print, OpCode::Nil, OpCode::Return];
    vm.compile(Ok(script(code, vec![]))).unwrap();
    let mut fuel = Fuel::new(10);
    assert!(matches!(vm.interpret(&mut fuel), Ok(Event::Ask(Request::Print(_)))));
    match vm.answer(None, &mut fuel).unwrap() {
        Event::Done(value) => assert_eq!(value, ReturnValue::Nil),
        other => panic!("{other:?}"),
    }
    let reply = Some(Reply::Value(Value::Class(0)));
    assert!(matches!(vm.answer(reply, &mut fuel), Err(Halt::Stuck)));
}

#[test]
fn the_returning_instruction_is_not_charged() {
    // The script returns at its third instruction.
    let code = vec![OpCode::Nil, OpCode::Not, OpCode::Return];
    for size in 1..6 {
        let mut vm = Vm::new();
        vm.compile(Ok(script(code.clone(), vec![]))).unwrap();
        let mut fuel = Fuel::new(size);
        let done = matches!(vm.state.step(&mut fuel), Ok(Event::Done(_)));
        assert_eq!(done, size >= 3);
        let spent = if done { 2 } else { size };
        fuel.consume(size - spent - 1);
        assert!(fuel.should_continue());
        fuel.consume(1);
        assert!(!fuel.should_continue());
    }
}

#[test]
fn variables_outlive_programs() {
    let mut vm = Vm::new();
    vm.inject_scalars(&vec![("kept".to_string(), Json::String(b"abc".to_vec()))]);
    for i in 0..3 {
        let name = text(&mut vm, "other");
        let code = vec![
            OpCode::Constant(1),
            OpCode::DefineGlobal(0),
            OpCode::Nil,
            OpCode::SetGlobal(0),
            OpCode::Return,
        ];
        assert_eq!(run(&mut vm, script(code, vec![name, num(i as f64)])), ReturnValue::Nil);
        let program = returning(&mut vm, "kept");
        assert_eq!(run(&mut vm, program), string("abc"));
        assert_eq!(vm.state.frame_count(), 0);
    }
}

#[test]
fn a_second_object_replaces_the_first() {
    let mut vm = Vm::new();
    vm.inject_object("o", &vec![("a".to_string(), Json::Null), ("b".to_string(), Json::Null)]);
    let name = text(&mut vm, "first");
    let o = text(&mut vm, "o");
    let code = vec![OpCode::GetGlobal(0), OpCode::DefineGlobal(1), OpCode::Nil, OpCode::Return];
    run(&mut vm, script(code, vec![o, name]));
    vm.inject_object(
        "o",
        &vec![("b".to_string(), Json::Compound), ("c".to_string(), Json::Bool(true))],
    );
    let program = returning(&mut vm, "o");
    let second = run(&mut vm, program);
    assert_eq!(second.get("a"), None);
    assert_eq!(second.get("b"), None);
    assert_eq!(second.get("c"), Some(&ReturnValue::Boolean(true)));
    let program = returning(&mut vm, "first");
    let first = run(&mut vm, program);
    assert_eq!(first.get("a"), Some(&ReturnValue::Nil));
    assert_eq!(first.get("b"), Some(&ReturnValue::Nil));
    assert_eq!(first.get("c"), None);
}

#[test]
fn the_order_of_injections_makes_no_difference() {
    let mut one: HashMap<String, serde_json::Value> = HashMap::new();
    one.insert("a".into(), "x".into());
    one.insert("b".into(), 1.into());
    let mut two: HashMap<String, serde_json::Value> = HashMap::new();
    two.insert("c".into(), "y".into());
    two.insert("d".into(), serde_json::Value::Array(vec![]));
    let mut both = one.clone();
    both.extend(two.clone());
    for maps in [
        vec![one.clone(), two.clone()],
        vec![two.clone(), one.clone()],
        vec![both.clone()],
        vec![one.clone(), two.clone(), one.clone()],
    ] {
        let mut vm = Vm::new();
        for map in maps {
            vm.inject_variables(map);
        }
        for (name, value) in [("a", string("x")), ("b", number(1.0)), ("c", string("y"))] {
            let program = returning(&mut vm, name);
            assert_eq!(run(&mut vm, program), value);
        }
        let program = returning(&mut vm, "d");
        assert!(error(&mut vm, program).starts_with("Undefined variable 'd'."));
    }
}

#[test]
fn only_calls_and_returns_change_the_number_of_calls() {
    let mut vm = Vm::new();
    let name = Some(place(&mut vm, "f"));
    let names = vec![text(&mut vm, "C")];
    let code = vec![
        OpCode::Class(0),
        OpCode::Call(0),
        OpCode::Pop,
        OpCode::Closure(1),
        OpCode::Call(0),
        OpCode::Return,
    ];
    let mut program = script(code, names);
    program.push((1, function(0, name, vec![], vec![OpCode::Nil, OpCode::Return], vec![])));
    vm.compile(Ok(program)).unwrap();
    let mut counts = vec![vm.state.frame_count()];
    while !matches!(vm.state.dispatch_next(0), Ok(Event::Done(_))) {
        counts.push(vm.state.frame_count());
    }
    assert_eq!(counts, vec![1, 1, 1, 1, 1, 2, 2, 1]);
    assert_eq!(vm.state.frame_count(), 0);
}

#[test]
fn captures_are_shared_across_other_captures() {
    let mut vm = Vm::new();
    let capturing = |vm: &mut Vm, indices: &[usize], code: Vec<OpCode>| {
        let upvalues =
            indices.iter().map(|index| Upvalue { index: *index, is_local: true }).collect();
        function(0, Some(place(vm, "f")), upvalues, code, vec![num(8.0)])
    };
    let writer = capturing(
        &mut vm,
        &[2],
        vec![OpCode::Constant(0), OpCode::SetUpvalue(0), OpCode::Return],
    );
    let both = vec![OpCode::GetUpvalue(0), OpCode::GetUpvalue(1), OpCode::Subtract, OpCode::Return];
    let other = capturing(&mut vm, &[1, 3], vec![OpCode::Nil, OpCode::Return]);
    let reader = capturing(&mut vm, &[2, 1], both);
    // Slots 1 to 3 hold 1, 2 and 3; slot 2 is captured, then slots 1 and 3, then slot 2 again.
    let code = vec![
        OpCode::Constant(0),
        OpCode::Constant(1),
        OpCode::Constant(2),
        OpCode::Closure(1),
        OpCode::Closure(2),
        OpCode::Pop,
        OpCode::Closure(3),
        OpCode::GetLocal(4),
        OpCode::Call(0),
        OpCode::Pop,
        OpCode::Call(0),
        OpCode::Return,
    ];
    let mut program = script(code, vec![num(1.0), num(2.0), num(3.0)]);
    program.push((1, writer));
    program.push((2, other));
    program.push((3, reader));
    assert_eq!(run(&mut vm, program), number(7.0));
}

#[test]
fn variables_given_after_an_assignment_stay() {
    let mut vm = Vm::new();
    let name = text(&mut vm, "x");
    let code = vec![OpCode::True, OpCode::DefineGlobal(0), OpCode::Nil, OpCode::Return];
    run(&mut vm, script(code, vec![name]));
    vm.inject_scalars(&vec![("x".to_string(), Json::Number(5.0f64.to_bits()))]);
    // The code of the first program is still there, but nothing executes it.
    run(&mut vm, script(vec![OpCode::Nil, OpCode::Return], vec![]));
    let program = returning(&mut vm, "x");
    assert_eq!(run(&mut vm, program), number(5.0));
}

#[test]
fn objects_outlive_programs() {
    let mut vm = Vm::new();
    let fields = vec![
        ("a".to_string(), Json::Number(1.0f64.to_bits())),
        ("b".to_string(), Json::Compound),
        ("c".to_string(), Json::String(b"z".to_vec())),
    ];
    vm.inject_object("o", &fields);
    let names = vec![text(&mut vm, "C"), text(&mut vm, "a"), text(&mut vm, "o")];
    // Another instance gets a field of the same name, and the object is only read.
    let code = vec![
        OpCode::Class(0),
        OpCode::Call(0),
        OpCode::Nil,
        OpCode::SetProperty(1),
        OpCode::GetGlobal(2),
        OpCode::GetProperty(1),
        OpCode::Return,
    ];
    assert_eq!(run(&mut vm, script(code, names)), number(1.0));
    let program = returning(&mut vm, "o");
    let result = run(&mut vm, program);
    assert_eq!(result.get("a"), Some(&number(1.0)));
    assert_eq!(result.get("b"), None);
    assert_eq!(result.get("c"), Some(&string("z")));
    assert_eq!(result.get("o"), None);
}

#[test]
fn variables_are_closed_slot_by_slot() {
    let mut vm = Vm::new();
    let both = function(
        0,
        Some(place(&mut vm, "both")),
        vec![Upvalue { index: 1, is_local: true }, Upvalue { index: 2, is_local: true }],
        vec![OpCode::GetUpvalue(0), OpCode::GetUpvalue(1), OpCode::Subtract, OpCode::Return],
        vec![],
    );
    let name = text(&mut vm, "f");
    // Both variables are closed, the upper one first; then others take their slots.
    let code = vec![
        OpCode::Constant(0),
        OpCode::Constant(1),
        OpCode::Closure(1),
        OpCode::DefineGlobal(2),
        OpCode::CloseUpvalue,
        OpCode::CloseUpvalue,
        OpCode::True,
        OpCode::False,
        OpCode::GetGlobal(2),
        OpCode::Call(0),
        OpCode::Return,
    ];
    let mut program = script(code, vec![num(7.0), num(4.0), name]);
    program.push((1, both));
    assert_eq!(run(&mut vm, program), number(3.0));
}
