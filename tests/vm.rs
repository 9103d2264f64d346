use jsvm::{Arena, Fault, Instruction, NumericOp, Object, Upcast, Value, VirtualMachine};

fn num(n: i64) -> Value {
    Value::Number(n)
}

fn text(s: &str) -> Value {
    Value::String(s.to_string())
}

fn run_all(code: Vec<Instruction>) -> (VirtualMachine, Result<bool, Fault>) {
    let mut vm = VirtualMachine::new(code);
    let r = vm.run(1000);
    (vm, r)
}

#[test]
fn add_numbers() {
    let arena: Arena<Object> = Arena::new();
    assert_eq!(num(2).add(num(3), &arena), num(5));
    assert_eq!(num(-7).add(num(7), &arena), num(0));
    assert_eq!(Value::Boolean(true).add(num(2), &arena), num(3));
    assert_eq!(Value::Boolean(true).add(Value::Boolean(true), &arena), num(2));
}

#[test]
fn add_overflow_is_undefined() {
    let arena: Arena<Object> = Arena::new();
    assert_eq!(num(i64::MAX).add(num(1), &arena), Value::Undefined);
}

#[test]
fn add_strings() {
    let mut arena: Arena<Object> = Arena::new();
    assert_eq!(text("a").add(num(1), &arena), text("a1"));
    assert_eq!(num(-12).add(text("x"), &arena), text("-12x"));
    assert_eq!(text("x").add(Value::Undefined, &arena), text("xundefined"));
    assert_eq!(Value::Null.add(text("!"), &arena), text("null!"));
    assert_eq!(Value::Boolean(false).add(text(""), &arena), text("false"));
    assert_eq!(text("ab").add(text("cd"), &arena), text("abcd"));
    let a = arena.push(Object::Array(vec![num(1)]));
    let m = arena.push(Object::Dict(vec![]));
    let c = arena.push(Object::Closure { environment: vec![], function_pointer: 0 });
    assert_eq!(text("").add(Value::Reference(a), &arena), text("[array]"));
    assert_eq!(text("").add(Value::Reference(m), &arena), text("{object}"));
    assert_eq!(text("").add(Value::Reference(c), &arena), text("function"));
    assert_eq!(text("").add(Value::FunctionPointer(4), &arena), text("function"));
}

#[test]
fn add_mismatch_is_undefined() {
    let arena: Arena<Object> = Arena::new();
    assert_eq!(Value::Null.add(num(1), &arena), Value::Undefined);
    assert_eq!(Value::Undefined.add(Value::Undefined, &arena), Value::Undefined);
}

#[test]
fn number_rendering() {
    assert_eq!(jsvm::number_to_string(0), "0");
    assert_eq!(jsvm::number_to_string(1234), "1234");
    assert_eq!(jsvm::number_to_string(-5), "-5");
    assert_eq!(jsvm::number_to_string(i64::MIN), "-9223372036854775808");
}

#[test]
fn numeric_operators() {
    let ops = |op, a, b| num(a).apply_numeric(op, num(b));
    assert_eq!(ops(NumericOp::Sub, 7, 10), num(-3));
    assert_eq!(ops(NumericOp::Mul, 6, 7), num(42));
    assert_eq!(ops(NumericOp::Div, 7, 2), num(3));
    assert_eq!(ops(NumericOp::Div, -7, 2), num(-3));
    assert_eq!(ops(NumericOp::Rem, -7, 2), num(-1));
    assert_eq!(ops(NumericOp::Rem, 7, -2), num(1));
    assert_eq!(ops(NumericOp::BitAnd, 12, 10), num(8));
    assert_eq!(ops(NumericOp::BitOr, 12, 10), num(14));
    assert_eq!(ops(NumericOp::BitXor, 12, 10), num(6));
    assert_eq!(ops(NumericOp::ShiftLeft, 1, 4), num(16));
    assert_eq!(ops(NumericOp::ShiftRight, -16, 2), num(-4));
    assert_eq!(ops(NumericOp::ShiftLeft, 1, 64), Value::Undefined);
    assert_eq!(ops(NumericOp::Equal, 3, 3), Value::Boolean(true));
    assert_eq!(ops(NumericOp::NotEqual, 3, 3), Value::Boolean(false));
    assert_eq!(ops(NumericOp::SmallerEqual, 2, 3), Value::Boolean(true));
    assert_eq!(ops(NumericOp::GreaterEqual, 2, 3), Value::Boolean(false));
    assert_eq!(ops(NumericOp::Mul, i64::MAX, 2), Value::Undefined);
    assert_eq!(ops(NumericOp::Div, i64::MIN, -1), Value::Undefined);
}

#[test]
fn non_numbers_give_undefined() {
    let all = [
        NumericOp::Sub,
        NumericOp::Mul,
        NumericOp::Div,
        NumericOp::Rem,
        NumericOp::BitAnd,
        NumericOp::BitOr,
        NumericOp::BitXor,
        NumericOp::ShiftLeft,
        NumericOp::ShiftRight,
        NumericOp::Equal,
    ];
    for op in all {
        assert_eq!(text("1").apply_numeric(op, num(1)), Value::Undefined);
        assert_eq!(num(1).apply_numeric(op, Value::Boolean(true)), Value::Undefined);
        assert_eq!(Value::Null.apply_numeric(op, Value::Null), Value::Undefined);
    }
}

#[test]
fn divide_by_zero_is_undefined() {
    for a in [0, 1, -5, i64::MAX] {
        assert_eq!(num(a).apply_numeric(NumericOp::Div, num(0)), Value::Undefined);
        assert_eq!(num(a).apply_numeric(NumericOp::Rem, num(0)), Value::Undefined);
    }
    assert_eq!(text("a").apply_numeric(NumericOp::Div, num(0)), Value::Undefined);
}

#[test]
fn unary_operators() {
    assert_eq!(Value::Boolean(true).not(), Value::Boolean(false));
    assert_eq!(num(1).not(), Value::Undefined);
    assert_eq!(num(5).neg(), num(-5));
    assert_eq!(num(i64::MIN).neg(), Value::Undefined);
    assert_eq!(text("5").neg(), Value::Undefined);
    assert_eq!(num(5).bitwise_not(), num(-6));
    assert_eq!(Value::Null.bitwise_not(), Value::Undefined);
    assert_eq!(Value::Boolean(true).logic(Value::Boolean(false), true), Value::Boolean(false));
    assert_eq!(Value::Boolean(true).logic(Value::Boolean(false), false), Value::Boolean(true));
    assert_eq!(num(1).logic(Value::Boolean(false), true), Value::Undefined);
}

#[test]
fn coercions() {
    let t = |v: Value| -> bool { Upcast::<bool>::upcast(&v).unwrap() };
    assert!(t(Value::Boolean(true)));
    assert!(!t(Value::Boolean(false)));
    assert!(t(num(2)));
    assert!(!t(num(0)));
    assert!(!t(text("yes")));
    assert!(!t(Value::Undefined));
    assert!(!t(Value::Null));
    assert!(!t(Value::Reference(0)));
    let n = |v: Value| -> Result<i64, ()> { Upcast::<i64>::upcast(&v) };
    assert_eq!(n(Value::Boolean(true)), Ok(1));
    assert_eq!(n(Value::Boolean(false)), Ok(0));
    assert_eq!(n(num(9)), Ok(9));
    assert_eq!(n(text("9")), Err(()));
    assert_eq!(n(Value::Null), Err(()));
    let arena: Arena<Object> = Arena::new();
    assert_eq!(Value::Undefined.to_display(&arena), "undefined");
    assert_eq!(Value::Boolean(true).to_display(&arena), "true");
    assert_eq!(num(-40).to_display(&arena), "-40");
    assert_eq!(Value::Reference(3).to_display(&arena), "[object Object]");
}

#[test]
fn indexing() {
    let mut arena: Arena<Object> = Arena::new();
    let a = arena.push(Object::Array(vec![num(10), num(20)]));
    let m = arena.push(Object::Dict(vec![
        ("x".to_string(), num(1)),
        ("y".to_string(), num(2)),
        ("x".to_string(), num(3)),
    ]));
    let r = |i| Value::Reference(i);
    assert_eq!(r(a).get(num(1), &arena), num(20));
    assert_eq!(r(a).get(num(2), &arena), Value::Undefined);
    assert_eq!(r(a).get(num(-1), &arena), Value::Undefined);
    assert_eq!(r(a).get(text("length"), &arena), num(2));
    assert_eq!(r(a).get(text("size"), &arena), Value::Undefined);
    assert_eq!(r(m).get(text("y"), &arena), num(2));
    assert_eq!(r(m).get(text("x"), &arena), num(3));
    assert_eq!(r(m).get(text("z"), &arena), Value::Undefined);
    assert_eq!(r(m).get(num(0), &arena), Value::Undefined);
    assert_eq!(text("héllo").get(text("length"), &arena), num(5));
    assert_eq!(text("abc").get(num(0), &arena), Value::Undefined);
    assert_eq!(r(7).get(num(0), &arena), Value::Undefined);
    assert_eq!(num(1).get(text("length"), &arena), Value::Undefined);
}

#[test]
fn arena_reuse() {
    let mut arena: Arena<u32> = Arena::new();
    assert_eq!(arena.push(10), 0);
    assert_eq!(arena.push(11), 1);
    assert_eq!(arena.push(12), 2);
    arena.free(1);
    assert_eq!(arena.objects().len(), 3);
    assert_eq!(arena.push(21), 1);
    assert_eq!(arena.objects()[1], 21);
    let i = arena.push(30);
    assert_eq!(i, 3);
    arena.free(i);
    assert_eq!(arena.objects().len(), 3);
    assert_eq!(arena.push(31), 3);
    assert_eq!(arena.get(3), Some(&31));
    assert_eq!(arena.get(4), None);
}

#[test]
fn arena_free_then_push_same_index() {
    let mut arena: Arena<&str> = Arena::new();
    arena.push("a");
    arena.push("b");
    let i = arena.push("c");
    arena.free(0);
    let j = arena.push("d");
    assert_eq!(j, 0);
    arena.free(j);
    assert_eq!(arena.push("e"), j);
    arena.free(i);
    assert_eq!(arena.objects().len(), 2);
    assert_eq!(arena.push("f"), i);
}

#[test]
fn scenario_add_store_global() {
    let (vm, r) = run_all(vec![
        Instruction::Push(num(2)),
        Instruction::Push(num(3)),
        Instruction::Add,
        Instruction::StoreGlobal(0),
    ]);
    assert_eq!(r, Ok(true));
    assert!(vm.is_halted());
    assert_eq!(vm.globals()[0], num(5));
    assert!(vm.stack().is_empty());
}

#[test]
fn scenario_string_concat() {
    let (vm, r) = run_all(vec![Instruction::Push(text("a")), Instruction::Push(num(1)), Instruction::Add]);
    assert_eq!(r, Ok(true));
    assert_eq!(vm.stack().last(), Some(&text("a1")));
}

#[test]
fn scenario_closure_captures_by_value() {
    let code = vec![
        // x = 1, a local of the outer frame at slot 0
        Instruction::Push(num(1)),
        // closure capturing x
        Instruction::Load(0),
        Instruction::MakeClosure(1, 9),
        // x = 2 after the closure was made
        Instruction::Push(num(2)),
        Instruction::Store(0),
        // call the closure and keep what it returns in global 0
        Instruction::Load(1),
        Instruction::Jump,
        Instruction::StoreGlobal(0),
        Instruction::JumpStatic(11),
        // closure body: return its captured x
        Instruction::Load(0),
        Instruction::Return,
    ];
    let (vm, r) = run_all(code);
    assert_eq!(r, Ok(true));
    assert_eq!(vm.globals()[0], num(1));
    assert_eq!(vm.stack()[0], num(2));
}

#[test]
fn call_and_return_restore_frame() {
    let code = vec![
        Instruction::Push(num(4)),
        Instruction::Push(Value::FunctionPointer(5)),
        Instruction::Jump,
        Instruction::StoreGlobal(0),
        Instruction::JumpStatic(10),
        // square of the argument below the frame
        Instruction::Push(num(99)),
        Instruction::Load(-1),
        Instruction::Load(-1),
        Instruction::Mul,
        Instruction::Return,
    ];
    let mut vm = VirtualMachine::new(code);
    assert_eq!(vm.run(3), Ok(false));
    assert_eq!(vm.instruction_pointer(), 5);
    assert_eq!(vm.stack_base(), 1);
    assert_eq!(vm.call_depth(), 1);
    assert_eq!(vm.run(4), Ok(false));
    assert_eq!(vm.instruction_pointer(), 9);
    assert_eq!(vm.next(), Ok(()));
    assert_eq!(vm.instruction_pointer(), 3);
    assert_eq!(vm.stack_base(), 0);
    assert_eq!(vm.call_depth(), 0);
    assert_eq!(vm.stack().clone(), vec![num(4), num(16)]);
    assert_eq!(vm.run(10), Ok(true));
    assert_eq!(vm.globals()[0], num(16));
}

#[test]
fn conditional_jumps_and_arrays() {
    let code = vec![
        Instruction::Push(num(5)),
        Instruction::Push(num(6)),
        Instruction::MakeArray(2),
        Instruction::StoreGlobal(0),
        Instruction::LoadGlobal(0),
        Instruction::Push(text("length")),
        Instruction::Get,
        Instruction::Push(num(2)),
        Instruction::Equal,
        Instruction::JumpConditional(12),
        Instruction::Push(text("no")),
        Instruction::JumpStatic(13),
        Instruction::Push(text("yes")),
        Instruction::LoadGlobal(0),
        Instruction::Push(num(1)),
        Instruction::Get,
        Instruction::LoadGlobal(7),
    ];
    let (vm, r) = run_all(code);
    assert_eq!(r, Ok(true));
    assert_eq!(vm.stack().clone(), vec![text("yes"), num(6), Value::Undefined]);
    assert_eq!(vm.arena().get(0).map(|o| matches!(o, Object::Array(_))), Some(true));
}

#[test]
fn operators_in_the_machine() {
    let code = vec![
        Instruction::Push(num(7)),
        Instruction::Push(num(2)),
        Instruction::Sub,
        Instruction::Push(num(3)),
        Instruction::Rem,
        Instruction::Negation,
        Instruction::BitwiseNot,
        Instruction::Push(Value::Boolean(true)),
        Instruction::Not,
        Instruction::Push(num(1)),
        Instruction::Push(num(0)),
        Instruction::Div,
    ];
    let (vm, r) = run_all(code);
    assert_eq!(r, Ok(true));
    assert_eq!(vm.stack().clone(), vec![num(1), Value::Boolean(false), Value::Undefined]);
}

#[test]
fn faults() {
    assert_eq!(run_all(vec![Instruction::Add]).1, Err(Fault::EmptyStack));
    assert_eq!(run_all(vec![Instruction::Load(0)]).1, Err(Fault::BadAddress));
    assert_eq!(run_all(vec![Instruction::StoreGlobal(-1)]).1, Err(Fault::EmptyStack));
    assert_eq!(run_all(vec![Instruction::Push(num(1)), Instruction::StoreGlobal(-1)]).1, Err(Fault::BadAddress));
    assert_eq!(run_all(vec![Instruction::JumpStatic(5)]).1, Err(Fault::BadJump));
    assert_eq!(run_all(vec![Instruction::Push(num(1)), Instruction::Return]).1, Err(Fault::CallStackUnderflow));
    assert_eq!(run_all(vec![Instruction::Push(num(1)), Instruction::Jump]).1, Err(Fault::NotCallable));
    assert_eq!(run_all(vec![Instruction::MakeArray(1)]).1, Err(Fault::EmptyStack));
}

#[test]
fn budget_stops_an_endless_loop() {
    let mut vm = VirtualMachine::new(vec![Instruction::JumpStatic(0)]);
    assert_eq!(vm.run(50), Ok(false));
    assert!(!vm.is_halted());
}

#[test]
fn maps_in_the_machine() {
    let code = vec![
        Instruction::Push(text("name")),
        Instruction::Push(text("Steve")),
        Instruction::Push(num(7)),
        Instruction::Push(Value::Boolean(true)),
        Instruction::MakeDict(2),
        Instruction::StoreGlobal(0),
        Instruction::LoadGlobal(0),
        Instruction::Push(text("name")),
        Instruction::Get,
        Instruction::LoadGlobal(0),
        Instruction::Push(text("7")),
        Instruction::Get,
        Instruction::LoadGlobal(0),
        Instruction::Push(text("missing")),
        Instruction::Get,
    ];
    let (vm, r) = run_all(code);
    assert_eq!(r, Ok(true));
    assert_eq!(vm.stack().clone(), vec![text("Steve"), Value::Boolean(true), Value::Undefined]);
    assert_eq!(run_all(vec![Instruction::Push(num(1)), Instruction::MakeDict(1)]).1, Err(Fault::EmptyStack));
}

#[test]
fn out_of_range_index_in_the_machine() {
    let code = vec![
        Instruction::Push(num(1)),
        Instruction::MakeArray(1),
        Instruction::Push(num(5)),
        Instruction::Get,
    ];
    let (vm, r) = run_all(code);
    assert_eq!(r, Ok(true));
    assert_eq!(vm.stack().clone(), vec![Value::Undefined]);
}

#[test]
fn deep_copy_keeps_contents() {
    let o = Object::Dict(vec![("k".to_string(), text("v")), ("n".to_string(), num(3))]);
    match o.deep_copy() {
        Object::Dict(entries) => {
            assert_eq!(entries, vec![("k".to_string(), text("v")), ("n".to_string(), num(3))]);
        }
        _ => panic!("a map copies to a map"),
    }
    match (Object::Closure { environment: vec![num(1)], function_pointer: 4 }).deep_copy() {
        Object::Closure { environment, function_pointer } => {
            assert_eq!(environment, vec![num(1)]);
            assert_eq!(function_pointer, 4);
        }
        _ => panic!("a closure copies to a closure"),
    }
}
