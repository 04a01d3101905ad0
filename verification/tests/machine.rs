use vrl_core::arithmetic::BinaryOp;
use vrl_core::arithmetic::OperationError;
use vrl_core::arithmetic::ValueKind;
use vrl_core::context::Context;
use vrl_core::context::Function;
use vrl_core::context::Parameter;
use vrl_core::context::Runtime;
use vrl_core::context::Target;
use vrl_core::context::VmArgument;
use vrl_core::context::VmArgumentList;
use vrl_core::error::CallError;
use vrl_core::error::ExpressionError;
use vrl_core::error::FetchError;
use vrl_core::error::Span;
use vrl_core::keymap::KeyMap;
use vrl_core::kind::Kind;
use vrl_core::machine::Instruction;
use vrl_core::machine::OpCode;
use vrl_core::machine::Vm;
use vrl_core::number::FloatOp;
use vrl_core::number::FloatUnit;
use vrl_core::path::Lookup;
use vrl_core::path::Segment;
use vrl_core::value::Value;
use vrl_core::variable::Variable;

struct Event {
    root: Value,
    fail: bool,
}

impl Event {
    fn empty() -> Event {
        Event {
            root: Value::Object(KeyMap::new()),
            fail: false,
        }
    }
}

impl Target for Event {
    fn get(&self, path: &Lookup) -> Result<Option<Value>, String> {
        if self.fail {
            return Err("event is closed".to_string());
        }
        Ok(self.root.get_by_path(path).cloned())
    }

    fn insert(&mut self, path: &Lookup, value: Value) -> Result<(), String> {
        if self.fail {
            return Err("event is closed".to_string());
        }
        let root = std::mem::replace(&mut self.root, Value::Null);
        self.root = root.insert_by_path(path, value);
        Ok(())
    }
}

struct Floats;

impl FloatUnit for Floats {
    fn from_integer(&self, value: i64) -> u64 {
        (value as f64).to_bits()
    }

    fn compute(&self, op: FloatOp, lhs: u64, rhs: u64) -> u64 {
        let (l, r) = (f64::from_bits(lhs), f64::from_bits(rhs));
        let result = match op {
            FloatOp::Add => l + r,
            FloatOp::Subtract => l - r,
            FloatOp::Multiply => l * r,
            FloatOp::Divide => l / r,
            FloatOp::Rem => l % r,
        };
        result.to_bits()
    }
}

fn float(x: f64) -> Value {
    Value::Float(x.to_bits())
}

fn text(s: &str) -> Value {
    Value::from_text(s)
}

fn object(pairs: Vec<(&str, Value)>) -> Value {
    let mut map = KeyMap::new();
    for (key, value) in pairs {
        map.insert(key.to_string(), value);
    }
    Value::Object(map)
}

fn empty_vm() -> Vm<String> {
    Vm::new(Vec::new())
}

fn constant(vm: &mut Vm<String>, value: Value) {
    let slot = vm.add_constant(value);
    vm.write_chunk(OpCode::Constant);
    vm.write_primitive(slot);
}

fn run_with(
    vm: &Vm<String>,
    event: &mut Event,
    store: &mut Runtime,
) -> Result<Value, ExpressionError> {
    let floats = Floats;
    let mut ctx = Context {
        target: event,
        state: store,
        floats: &floats,
    };
    vm.interpret(&mut ctx)
}

fn run(vm: &Vm<String>) -> Result<Value, ExpressionError> {
    run_with(vm, &mut Event::empty(), &mut Runtime::new())
}

fn binary(lhs: Value, rhs: Value, op: OpCode) -> Result<Value, ExpressionError> {
    let mut vm = empty_vm();
    constant(&mut vm, lhs);
    constant(&mut vm, rhs);
    vm.write_chunk(op);
    vm.write_chunk(OpCode::Return);
    run(&vm)
}

/// Runs `lhs op rhs` and then stores the pending error, if any, as text.
fn binary_error(lhs: Value, rhs: Value, op: OpCode) -> Value {
    let mut vm = empty_vm();
    let ok = vm.get_target(&Variable::local("ok"));
    let err = vm.get_target(&Variable::local("err"));
    let default = vm.add_constant(Value::Null);
    constant(&mut vm, lhs);
    constant(&mut vm, rhs);
    vm.write_chunk(op);
    vm.write_chunk(OpCode::SetPathInfallible);
    vm.write_primitive(ok);
    vm.write_primitive(err);
    vm.write_primitive(default);
    vm.write_chunk(OpCode::Return);
    run(&vm).unwrap()
}

#[test]
fn return_on_empty_stack_yields_null() {
    let mut vm = empty_vm();
    vm.write_chunk(OpCode::Return);
    assert_eq!(run(&vm), Ok(Value::Null));
}

#[test]
fn constant_round_trip() {
    let values = vec![
        Value::Integer(7),
        text("seven"),
        Value::Array(vec![Value::Boolean(true), Value::Null]),
        object(vec![("k", Value::Timestamp(12))]),
    ];
    for (k, value) in values.iter().enumerate() {
        let mut vm = empty_vm();
        for v in &values {
            vm.add_constant(v.clone());
        }
        vm.write_chunk(OpCode::Constant);
        vm.write_primitive(k);
        vm.write_chunk(OpCode::Return);
        assert_eq!(run(&vm), Ok(value.clone()));
    }
}

#[test]
fn one_plus_two_is_three() {
    let mut vm = empty_vm();
    assert_eq!(vm.add_constant(Value::Integer(1)), 0);
    assert_eq!(vm.add_constant(Value::Integer(2)), 1);
    vm.write_chunk(OpCode::Constant);
    vm.write_primitive(0);
    vm.write_chunk(OpCode::Constant);
    vm.write_primitive(1);
    vm.write_chunk(OpCode::Add);
    vm.write_chunk(OpCode::Return);
    assert_eq!(run(&vm), Ok(Value::Integer(3)));
}

#[test]
fn true_and_false_with_jump_if_false() {
    let mut vm = empty_vm();
    constant(&mut vm, Value::Boolean(true));
    let slot = vm.emit_jump(OpCode::JumpIfFalse);
    vm.write_chunk(OpCode::Pop);
    constant(&mut vm, Value::Boolean(false));
    vm.patch_jump(slot);
    vm.write_chunk(OpCode::Return);
    assert_eq!(vm.instructions()[slot], Instruction::Primitive(3));
    assert_eq!(run(&vm), Ok(Value::Boolean(false)));

    // With false on the left the jump is taken and false stays on the stack.
    let mut vm = empty_vm();
    constant(&mut vm, Value::Boolean(false));
    let slot = vm.emit_jump(OpCode::JumpIfFalse);
    vm.write_chunk(OpCode::Pop);
    constant(&mut vm, Value::Boolean(true));
    vm.patch_jump(slot);
    vm.write_chunk(OpCode::Return);
    assert_eq!(run(&vm), Ok(Value::Boolean(false)));
}

#[test]
fn fallible_division_with_recovery() {
    let mut vm = empty_vm();
    let ok = vm.get_target(&Variable::local("ok"));
    let err = vm.get_target(&Variable::local("err"));
    let default = vm.add_constant(Value::Null);
    constant(&mut vm, Value::Integer(1));
    constant(&mut vm, Value::Integer(0));
    vm.write_chunk(OpCode::Divide);
    vm.write_chunk(OpCode::SetPathInfallible);
    vm.write_primitive(ok);
    vm.write_primitive(err);
    vm.write_primitive(default);
    vm.write_chunk(OpCode::Return);

    let mut store = Runtime::new();
    let result = run_with(&vm, &mut Event::empty(), &mut store);
    assert_eq!(result, Ok(text("can't divide by zero")));
    assert_eq!(store.variable("ok"), Some(&Value::Null));
    assert_eq!(store.variable("err"), Some(&text("can't divide by zero")));
}

#[test]
fn infallible_assignment_without_error() {
    let mut vm = empty_vm();
    let ok = vm.get_target(&Variable::local("ok"));
    let err = vm.get_target(&Variable::local("err"));
    let default = vm.add_constant(Value::Integer(-1));
    constant(&mut vm, Value::Integer(6));
    constant(&mut vm, Value::Integer(7));
    vm.write_chunk(OpCode::Multiply);
    vm.write_chunk(OpCode::SetPathInfallible);
    vm.write_primitive(ok);
    vm.write_primitive(err);
    vm.write_primitive(default);
    vm.write_chunk(OpCode::Return);

    let mut store = Runtime::new();
    let result = run_with(&vm, &mut Event::empty(), &mut store);
    assert_eq!(result, Ok(Value::Integer(42)));
    assert_eq!(store.variable("ok"), Some(&Value::Integer(42)));
    assert_eq!(store.variable("err"), Some(&Value::Null));
}

#[test]
fn error_suppresses_guarded_operations() {
    let mut vm = empty_vm();
    let ok = vm.get_target(&Variable::local("ok"));
    let err = vm.get_target(&Variable::local("err"));
    let default = vm.add_constant(text("fallback"));
    constant(&mut vm, Value::Integer(1));
    constant(&mut vm, Value::Null);
    vm.write_chunk(OpCode::Subtract);
    // None of these runs: the error is pending.
    vm.write_chunk(OpCode::Add);
    vm.write_chunk(OpCode::Merge);
    vm.write_chunk(OpCode::Less);
    vm.write_chunk(OpCode::Divide);
    vm.write_chunk(OpCode::SetPathInfallible);
    vm.write_primitive(ok);
    vm.write_primitive(err);
    vm.write_primitive(default);
    // The operands of the failed subtraction are still there, below the message.
    vm.write_chunk(OpCode::CreateArray);
    vm.write_primitive(3);
    vm.write_chunk(OpCode::Return);

    let mut store = Runtime::new();
    let result = run_with(&vm, &mut Event::empty(), &mut store);
    let message = text("can't subtract type null from integer");
    assert_eq!(
        result,
        Ok(Value::Array(vec![
            Value::Integer(1),
            Value::Null,
            message.clone()
        ]))
    );
    assert_eq!(store.variable("ok"), Some(&text("fallback")));
    assert_eq!(store.variable("err"), Some(&message));
}

#[test]
fn clear_error_lets_operations_run_again() {
    let mut vm = empty_vm();
    constant(&mut vm, Value::Integer(5));
    constant(&mut vm, Value::Integer(4));
    constant(&mut vm, Value::Boolean(true));
    vm.write_chunk(OpCode::Add);
    // The addition failed and left its operands: drop the boolean and add again.
    vm.write_chunk(OpCode::Pop);
    vm.write_chunk(OpCode::Add);
    vm.write_chunk(OpCode::Return);
    // Without ClearError the second addition is skipped.
    assert_eq!(run(&vm), Ok(Value::Integer(4)));

    let mut vm = empty_vm();
    constant(&mut vm, Value::Integer(5));
    constant(&mut vm, Value::Integer(4));
    constant(&mut vm, Value::Boolean(true));
    vm.write_chunk(OpCode::Add);
    vm.write_chunk(OpCode::ClearError);
    vm.write_chunk(OpCode::Pop);
    vm.write_chunk(OpCode::Add);
    vm.write_chunk(OpCode::Return);
    assert_eq!(run(&vm), Ok(Value::Integer(9)));
}

#[test]
fn jump_if_not_err() {
    let build = |fail: bool| {
        let mut vm = empty_vm();
        constant(&mut vm, Value::Integer(1));
        constant(
            &mut vm,
            if fail {
                Value::Null
            } else {
                Value::Integer(1)
            },
        );
        vm.write_chunk(OpCode::Add);
        let slot = vm.emit_jump(OpCode::JumpIfNotErr);
        constant(&mut vm, text("failed"));
        vm.patch_jump(slot);
        vm.write_chunk(OpCode::Return);
        vm
    };
    assert_eq!(run(&build(false)), Ok(Value::Integer(2)));
    assert_eq!(run(&build(true)), Ok(text("failed")));
}

#[test]
fn patched_jump_lands_after_the_last_instruction_written() {
    let mut vm = empty_vm();
    let slot = vm.emit_jump(OpCode::Jump);
    assert_eq!(slot, 1);
    assert_eq!(vm.instructions()[slot], Instruction::Primitive(usize::MAX));
    constant(&mut vm, text("skipped"));
    vm.write_chunk(OpCode::Return);
    let end = vm.instructions().len();
    vm.patch_jump(slot);
    assert_eq!(vm.instructions()[slot], Instruction::Primitive(end - slot - 1));
    // What is written next is where the jump lands.
    constant(&mut vm, text("landed"));
    vm.write_chunk(OpCode::Return);
    assert_eq!(run(&vm), Ok(text("landed")));
}

#[test]
fn jump_if_true_is_symmetric() {
    let build = |top: Value| {
        let mut vm = empty_vm();
        constant(&mut vm, top);
        let slot = vm.emit_jump(OpCode::JumpIfTrue);
        vm.write_chunk(OpCode::Pop);
        constant(&mut vm, text("not true"));
        vm.patch_jump(slot);
        vm.write_chunk(OpCode::Return);
        vm
    };
    assert_eq!(run(&build(Value::Boolean(true))), Ok(Value::Boolean(true)));
    assert_eq!(run(&build(Value::Boolean(false))), Ok(text("not true")));
    assert_eq!(run(&build(Value::Integer(1))), Ok(text("not true")));
}

#[test]
fn jump_past_the_end_fails() {
    let mut vm = empty_vm();
    vm.write_chunk(OpCode::Jump);
    vm.write_primitive(5);
    vm.write_chunk(OpCode::Return);
    assert_eq!(
        run(&vm),
        Err(ExpressionError::Fetch(FetchError::OutOfRange))
    );
    let mut vm = empty_vm();
    vm.write_chunk(OpCode::Jump);
    vm.write_primitive(usize::MAX);
    vm.write_chunk(OpCode::Return);
    assert_eq!(
        run(&vm),
        Err(ExpressionError::Fetch(FetchError::OutOfRange))
    );
    // A jump to the very end finds no instruction there.
    let mut vm = empty_vm();
    vm.write_chunk(OpCode::Jump);
    vm.write_primitive(0);
    assert_eq!(
        run(&vm),
        Err(ExpressionError::Fetch(FetchError::OutOfRange))
    );
}

#[test]
fn chained_assignment() {
    let mut vm = empty_vm();
    let v = vm.get_target(&Variable::local("v"));
    constant(&mut vm, Value::Integer(42));
    vm.write_chunk(OpCode::SetPath);
    vm.write_primitive(v);
    vm.write_chunk(OpCode::Return);
    let mut store = Runtime::new();
    assert_eq!(
        run_with(&vm, &mut Event::empty(), &mut store),
        Ok(Value::Integer(42))
    );
    assert_eq!(store.variable("v"), Some(&Value::Integer(42)));
}

#[test]
fn create_object_from_pairs() {
    let mut vm = empty_vm();
    constant(&mut vm, text("a"));
    constant(&mut vm, Value::Integer(1));
    constant(&mut vm, text("b"));
    constant(&mut vm, Value::Integer(2));
    vm.write_chunk(OpCode::CreateObject);
    vm.write_primitive(2);
    vm.write_chunk(OpCode::Return);
    assert_eq!(
        run(&vm),
        Ok(object(vec![
            ("a", Value::Integer(1)),
            ("b", Value::Integer(2))
        ]))
    );
}

#[test]
fn create_object_with_a_key_twice() {
    let mut vm = empty_vm();
    constant(&mut vm, text("a"));
    constant(&mut vm, Value::Integer(1));
    constant(&mut vm, text("a"));
    constant(&mut vm, Value::Integer(2));
    vm.write_chunk(OpCode::CreateObject);
    vm.write_primitive(2);
    vm.write_chunk(OpCode::Return);
    // The pair that was pushed last stays.
    assert_eq!(run(&vm), Ok(object(vec![("a", Value::Integer(2))])));

    let mut vm = empty_vm();
    constant(&mut vm, text("a"));
    constant(&mut vm, Value::Integer(1));
    constant(&mut vm, text("b"));
    constant(&mut vm, Value::Integer(2));
    constant(&mut vm, text("a"));
    constant(&mut vm, Value::Integer(3));
    constant(&mut vm, text("b"));
    constant(&mut vm, Value::Integer(4));
    constant(&mut vm, text("a"));
    constant(&mut vm, Value::Integer(5));
    vm.write_chunk(OpCode::CreateObject);
    vm.write_primitive(4);
    vm.write_chunk(OpCode::CreateArray);
    vm.write_primitive(3);
    vm.write_chunk(OpCode::Return);
    // The lowest pair is not among the four that are taken.
    assert_eq!(
        run(&vm),
        Ok(Value::Array(vec![
            text("a"),
            Value::Integer(1),
            object(vec![("a", Value::Integer(5)), ("b", Value::Integer(4))]),
        ]))
    );
}

#[test]
fn create_object_reads_keys_lossily() {
    let mut vm = empty_vm();
    constant(&mut vm, Value::Bytes(vec![b'o', b'k', 0xff]));
    constant(&mut vm, Value::Null);
    vm.write_chunk(OpCode::CreateObject);
    vm.write_primitive(1);
    vm.write_chunk(OpCode::Return);
    assert_eq!(run(&vm), Ok(object(vec![("ok\u{fffd}", Value::Null)])));
}

#[test]
fn create_object_rejects_a_key_that_is_no_byte_string() {
    let mut vm = empty_vm();
    constant(&mut vm, Value::Integer(3));
    constant(&mut vm, Value::Null);
    vm.write_chunk(OpCode::CreateObject);
    vm.write_primitive(1);
    vm.write_chunk(OpCode::Return);
    let error = ExpressionError::Operation(OperationError::Expected(
        ValueKind::Bytes,
        ValueKind::Integer,
    ));
    assert_eq!(run(&vm), Err(error));
    assert_eq!(
        OperationError::Expected(ValueKind::Bytes, ValueKind::Integer).message(),
        "expected string, got integer"
    );
}

#[test]
fn create_array_keeps_push_order() {
    let mut vm = empty_vm();
    constant(&mut vm, Value::Integer(0));
    constant(&mut vm, Value::Integer(1));
    constant(&mut vm, Value::Integer(2));
    constant(&mut vm, Value::Integer(3));
    vm.write_chunk(OpCode::CreateArray);
    vm.write_primitive(3);
    vm.write_chunk(OpCode::CreateArray);
    vm.write_primitive(2);
    vm.write_chunk(OpCode::Return);
    assert_eq!(
        run(&vm),
        Ok(Value::Array(vec![
            Value::Integer(0),
            Value::Array(vec![
                Value::Integer(1),
                Value::Integer(2),
                Value::Integer(3)
            ]),
        ]))
    );
}

#[test]
fn fetch_errors() {
    // Nothing to fetch.
    assert_eq!(
        run(&empty_vm()),
        Err(ExpressionError::Fetch(FetchError::OutOfRange))
    );
    // A primitive where an opcode is due.
    let mut vm = empty_vm();
    vm.write_primitive(3);
    assert_eq!(
        run(&vm),
        Err(ExpressionError::Fetch(FetchError::ExpectedOpcode))
    );
    // An opcode where a primitive is due.
    let mut vm = empty_vm();
    vm.write_chunk(OpCode::Constant);
    vm.write_chunk(OpCode::Return);
    assert_eq!(
        run(&vm),
        Err(ExpressionError::Fetch(FetchError::ExpectedPrimitive))
    );
    // A slot past the end of the constant pool.
    let mut vm = empty_vm();
    vm.write_chunk(OpCode::Constant);
    vm.write_primitive(0);
    vm.write_chunk(OpCode::Return);
    assert_eq!(
        run(&vm),
        Err(ExpressionError::Fetch(FetchError::OutOfRange))
    );
    // Too few operands.
    let mut vm = empty_vm();
    constant(&mut vm, Value::Integer(1));
    vm.write_chunk(OpCode::Add);
    vm.write_chunk(OpCode::Return);
    assert_eq!(
        run(&vm),
        Err(ExpressionError::Fetch(FetchError::StackUnderflow))
    );
    let mut vm = empty_vm();
    vm.write_chunk(OpCode::CreateArray);
    vm.write_primitive(1);
    assert_eq!(
        run(&vm),
        Err(ExpressionError::Fetch(FetchError::StackUnderflow))
    );
    let mut vm = empty_vm();
    vm.write_chunk(OpCode::JumpIfFalse);
    vm.write_primitive(0);
    vm.write_chunk(OpCode::Return);
    assert_eq!(
        run(&vm),
        Err(ExpressionError::Fetch(FetchError::StackUnderflow))
    );
    assert_eq!(FetchError::ExpectedOpcode.message(), "expecting opcode");
    assert_eq!(FetchError::ExpectedPrimitive.message(), "expecting primitive");
    assert_eq!(FetchError::StackUnderflow.message(), "stack underflow");
    assert_eq!(FetchError::OutOfRange.message(), "slot out of range");
}

#[test]
fn abort_carries_the_span() {
    let mut vm = empty_vm();
    vm.write_chunk(OpCode::Abort);
    vm.write_primitive(10);
    vm.write_primitive(25);
    let error = run(&vm).unwrap_err();
    assert_eq!(
        error,
        ExpressionError::Abort {
            span: Span::new(10, 25)
        }
    );
    assert_eq!(error.message(), "aborted");
}

#[test]
fn negate_and_not() {
    let unary = |value: Option<Value>, op: OpCode| {
        let mut vm = empty_vm();
        if let Some(value) = value {
            constant(&mut vm, value);
        }
        vm.write_chunk(op);
        vm.write_chunk(OpCode::Return);
        run(&vm)
    };
    assert_eq!(unary(Some(float(1.5)), OpCode::Negate), Ok(float(-1.5)));
    assert_eq!(unary(Some(float(0.0)), OpCode::Negate), Ok(float(-0.0)));
    assert_eq!(
        unary(Some(Value::Integer(1)), OpCode::Negate),
        Err(ExpressionError::Operation(
            OperationError::NegatingNonNumber
        ))
    );
    assert_eq!(
        unary(None, OpCode::Negate),
        Err(ExpressionError::Operation(OperationError::NegatingNothing))
    );
    assert_eq!(
        unary(Some(Value::Boolean(true)), OpCode::Not),
        Ok(Value::Boolean(false))
    );
    assert_eq!(
        unary(Some(Value::Null), OpCode::Not),
        Err(ExpressionError::Operation(
            OperationError::NottingNonBoolean
        ))
    );
    assert_eq!(
        unary(None, OpCode::Not),
        Err(ExpressionError::Operation(OperationError::NottingNothing))
    );
    assert_eq!(OperationError::NegatingNothing.message(), "Negating nothing");
    assert_eq!(
        OperationError::NegatingNonNumber.message(),
        "Negating non number"
    );
    assert_eq!(OperationError::NottingNothing.message(), "Notting nothing");
    assert_eq!(
        OperationError::NottingNonBoolean.message(),
        "Notting non boolean"
    );
}

#[test]
fn integer_arithmetic_wraps() {
    assert_eq!(
        binary(Value::Integer(i64::MAX), Value::Integer(1), OpCode::Add),
        Ok(Value::Integer(i64::MIN))
    );
    assert_eq!(
        binary(Value::Integer(i64::MIN), Value::Integer(1), OpCode::Subtract),
        Ok(Value::Integer(i64::MAX))
    );
    assert_eq!(
        binary(Value::Integer(i64::MAX), Value::Integer(2), OpCode::Multiply),
        Ok(Value::Integer(-2))
    );
    assert_eq!(
        binary(Value::Integer(7), Value::Integer(-2), OpCode::Rem),
        Ok(Value::Integer(1))
    );
    assert_eq!(
        binary(Value::Integer(-7), Value::Integer(2), OpCode::Rem),
        Ok(Value::Integer(-1))
    );
    assert_eq!(
        binary(Value::Integer(i64::MIN), Value::Integer(-1), OpCode::Rem),
        Ok(Value::Integer(0))
    );
}

#[test]
fn float_arithmetic_goes_through_the_unit() {
    assert_eq!(
        binary(Value::Integer(1), Value::Integer(2), OpCode::Divide),
        Ok(float(0.5))
    );
    assert_eq!(
        binary(float(1.5), Value::Integer(2), OpCode::Add),
        Ok(float(3.5))
    );
    assert_eq!(
        binary(Value::Integer(3), float(0.5), OpCode::Multiply),
        Ok(float(1.5))
    );
    assert_eq!(
        binary(float(5.5), float(2.0), OpCode::Rem),
        Ok(float(1.5))
    );
    assert_eq!(
        binary(float(1.0), float(2.5), OpCode::Subtract),
        Ok(float(-1.5))
    );
    // What is not a number becomes zero.
    assert_eq!(
        binary(float(f64::INFINITY), float(f64::INFINITY), OpCode::Subtract),
        Ok(float(0.0))
    );
}

#[test]
fn division_by_zero_of_either_sign() {
    for zero in [Value::Integer(0), float(0.0), float(-0.0)] {
        for op in [OpCode::Divide, OpCode::Rem] {
            assert_eq!(
                binary_error(Value::Integer(1), zero.clone(), op),
                text("can't divide by zero")
            );
            assert_eq!(
                binary_error(text("x"), zero.clone(), op),
                text("can't divide by zero")
            );
        }
    }
}

#[test]
fn comparisons() {
    let t = Ok(Value::Boolean(true));
    let f = Ok(Value::Boolean(false));
    assert_eq!(binary(Value::Integer(1), Value::Integer(2), OpCode::Less), t);
    assert_eq!(
        binary(Value::Integer(2), Value::Integer(2), OpCode::Less),
        f
    );
    assert_eq!(
        binary(Value::Integer(2), Value::Integer(2), OpCode::LessEqual),
        t
    );
    assert_eq!(
        binary(Value::Integer(2), Value::Integer(2), OpCode::GreaterEqual),
        t
    );
    assert_eq!(
        binary(Value::Integer(3), Value::Integer(2), OpCode::Greater),
        t
    );
    assert_eq!(binary(float(-1.0), float(0.5), OpCode::Less), t);
    assert_eq!(binary(float(-1.0), float(-2.0), OpCode::Less), f);
    assert_eq!(binary(float(-0.0), float(0.0), OpCode::Less), f);
    assert_eq!(binary(float(-0.0), float(0.0), OpCode::GreaterEqual), t);
    assert_eq!(binary(float(1e300), float(f64::INFINITY), OpCode::Less), t);
    assert_eq!(binary(Value::Integer(1), float(1.5), OpCode::Less), t);
    assert_eq!(binary(float(2.5), Value::Integer(2), OpCode::Greater), t);
    assert_eq!(binary(text("abc"), text("abd"), OpCode::Less), t);
    assert_eq!(binary(text("abc"), text("ab"), OpCode::Greater), t);
    assert_eq!(binary(text("abc"), text("abc"), OpCode::LessEqual), t);
    assert_eq!(binary(text(""), text("a"), OpCode::GreaterEqual), f);
    assert_eq!(
        binary(Value::Timestamp(5), Value::Timestamp(9), OpCode::Less),
        t
    );
    assert_eq!(
        binary_error(Value::Null, Value::Integer(1), OpCode::Greater),
        text("can't compare null > integer")
    );
}

#[test]
fn float_order_agrees_with_the_numbers() {
    let samples = [
        f64::NEG_INFINITY,
        -1e300,
        -2.5,
        -1.0,
        -f64::MIN_POSITIVE,
        -0.0,
        0.0,
        f64::MIN_POSITIVE,
        1.0,
        2.5,
        1e300,
        f64::INFINITY,
        f64::NAN,
    ];
    for a in samples {
        for b in samples {
            assert_eq!(vrl_core::number::less(a.to_bits(), b.to_bits()), a < b);
            assert_eq!(
                vrl_core::number::less_or_equal(a.to_bits(), b.to_bits()),
                a <= b
            );
            assert_eq!(vrl_core::number::equal(a.to_bits(), b.to_bits()), a == b);
        }
        assert_eq!(vrl_core::number::check_nan(a.to_bits()), a.is_nan());
        assert_eq!(vrl_core::number::check_zero(a.to_bits()), a == 0.0);
        if !a.is_nan() {
            assert_eq!(
                f64::from_bits(vrl_core::number::negate(a.to_bits())),
                a * -1.0
            );
            assert_eq!(vrl_core::number::zero_if_nan(a.to_bits()), a.to_bits());
        } else {
            assert_eq!(vrl_core::number::zero_if_nan(a.to_bits()), 0);
        }
    }
}

#[test]
fn adding_byte_strings_joins_them() {
    assert_eq!(binary(text("foo"), text("bar"), OpCode::Add), Ok(text("foobar")));
    assert_eq!(binary(text("foo"), Value::Null, OpCode::Add), Ok(text("foo")));
    assert_eq!(binary(Value::Null, text("bar"), OpCode::Add), Ok(text("bar")));
}

#[test]
fn merge_prefers_the_right_object() {
    let left = object(vec![("a", Value::Integer(1)), ("b", Value::Integer(2))]);
    let right = object(vec![("b", Value::Integer(20)), ("c", Value::Integer(30))]);
    assert_eq!(
        binary(left.clone(), right, OpCode::Merge),
        Ok(object(vec![
            ("a", Value::Integer(1)),
            ("b", Value::Integer(20)),
            ("c", Value::Integer(30)),
        ]))
    );
    assert_eq!(
        binary_error(left, Value::Array(Vec::new()), OpCode::Merge),
        text("can't merge type array into object")
    );
}

#[test]
fn unsupported_operands_name_both_kinds() {
    let cases = vec![
        (BinaryOp::Add, "can't add type boolean to string"),
        (BinaryOp::Subtract, "can't subtract type boolean from string"),
        (BinaryOp::Multiply, "can't multiply type string by boolean"),
        (BinaryOp::Divide, "can't divide type string by boolean"),
        (
            BinaryOp::Rem,
            "can't calculate remainder of type string and boolean",
        ),
        (BinaryOp::Merge, "can't merge type boolean into string"),
        (BinaryOp::Greater, "can't compare string > boolean"),
        (BinaryOp::GreaterEqual, "can't compare string >= boolean"),
        (BinaryOp::Less, "can't compare string < boolean"),
        (BinaryOp::LessEqual, "can't compare string <= boolean"),
    ];
    for (op, message) in cases {
        let error = OperationError::Unsupported(op, ValueKind::Bytes, ValueKind::Boolean);
        assert_eq!(error.message(), message);
        assert_eq!(ExpressionError::Operation(error).message(), message);
    }
    assert_eq!(
        binary_error(text("x"), Value::Boolean(true), OpCode::Multiply),
        text("can't multiply type string by boolean")
    );
    assert_eq!(
        binary_error(
            Value::Regex("a+".to_string()),
            Value::Timestamp(0),
            OpCode::Add
        ),
        text("can't add type timestamp to regex")
    );
    assert_eq!(
        binary_error(float(1.0), Value::Array(Vec::new()), OpCode::Subtract),
        text("can't subtract type array from float")
    );
    assert_eq!(
        binary_error(
            object(Vec::new()),
            Value::Null,
            OpCode::Divide
        ),
        text("can't divide type object by null")
    );
}

#[test]
fn equality_is_lossy_between_numbers() {
    let t = Ok(Value::Boolean(true));
    let f = Ok(Value::Boolean(false));
    assert_eq!(binary(Value::Integer(1), float(1.0), OpCode::Equal), t);
    assert_eq!(binary(float(2.0), Value::Integer(2), OpCode::Equal), t);
    assert_eq!(binary(float(2.5), Value::Integer(2), OpCode::Equal), f);
    assert_eq!(binary(float(0.0), float(-0.0), OpCode::Equal), t);
    assert_eq!(
        binary(float(f64::NAN), float(f64::NAN), OpCode::Equal),
        f
    );
    assert_eq!(binary(Value::Integer(1), Value::Integer(1), OpCode::Equal), t);
    assert_eq!(
        binary(Value::Integer(1), Value::Integer(2), OpCode::NotEqual),
        t
    );
    assert_eq!(binary(Value::Null, Value::Null, OpCode::Equal), t);
    assert_eq!(binary(Value::Null, Value::Boolean(false), OpCode::Equal), f);
    assert_eq!(binary(Value::Null, Value::Integer(0), OpCode::NotEqual), t);
    assert_eq!(binary(text("a"), text("a"), OpCode::Equal), t);
    assert_eq!(binary(text("a"), text("b"), OpCode::Equal), f);
    let one = object(vec![("x", Value::Array(vec![Value::Integer(1)]))]);
    let same = object(vec![("x", Value::Array(vec![Value::Integer(1)]))]);
    let other = object(vec![("x", Value::Array(vec![Value::Integer(2)]))]);
    assert_eq!(binary(one.clone(), same, OpCode::Equal), t);
    assert_eq!(binary(one, other, OpCode::Equal), f);
}

#[test]
fn equality_is_not_guarded() {
    let mut vm = empty_vm();
    constant(&mut vm, Value::Integer(1));
    constant(&mut vm, Value::Null);
    vm.write_chunk(OpCode::Add);
    // The error is pending, and the comparison runs all the same.
    vm.write_chunk(OpCode::Equal);
    vm.write_chunk(OpCode::Return);
    assert_eq!(run(&vm), Ok(Value::Boolean(false)));
}

#[test]
fn get_path_of_locals() {
    let mut store = Runtime::new();
    store.insert_variable(
        "x".to_string(),
        object(vec![(
            "list",
            Value::Array(vec![Value::Integer(10), Value::Integer(20)]),
        )]),
    );
    let read = |variable: Variable, store: &mut Runtime| {
        let mut vm = empty_vm();
        let slot = vm.get_target(&variable);
        vm.write_chunk(OpCode::GetPath);
        vm.write_primitive(slot);
        vm.write_chunk(OpCode::Return);
        run_with(&vm, &mut Event::empty(), store)
    };
    let path = Lookup::from_segments(vec![Segment::field("list"), Segment::index(-1)]);
    assert_eq!(
        read(Variable::Internal("x".to_string(), Some(path)), &mut store),
        Ok(Value::Integer(20))
    );
    let missing = Lookup::from_segments(vec![Segment::field("nope")]);
    assert_eq!(
        read(Variable::Internal("x".to_string(), Some(missing)), &mut store),
        Ok(Value::Null)
    );
    assert_eq!(read(Variable::local("y"), &mut store), Ok(Value::Null));
    assert_eq!(read(Variable::Sink, &mut store), Ok(Value::Null));
    assert_eq!(
        read(Variable::local("x"), &mut store),
        Ok(store.variable("x").unwrap().clone())
    );
}

#[test]
fn get_path_into_the_stack() {
    let mut vm = empty_vm();
    let path = Lookup::from_segments(vec![Segment::index(1)]);
    let slot = vm.get_target(&Variable::Stack(path));
    constant(
        &mut vm,
        Value::Array(vec![Value::Integer(10), Value::Integer(20)]),
    );
    vm.write_chunk(OpCode::GetPath);
    vm.write_primitive(slot);
    vm.write_chunk(OpCode::Return);
    assert_eq!(run(&vm), Ok(Value::Integer(20)));
}

#[test]
fn set_path_inside_a_local() {
    let mut vm = empty_vm();
    let path = Lookup::from_segments(vec![Segment::field("a"), Segment::index(2)]);
    let slot = vm.get_target(&Variable::Internal("x".to_string(), Some(path)));
    constant(&mut vm, Value::Integer(5));
    vm.write_chunk(OpCode::SetPath);
    vm.write_primitive(slot);
    vm.write_chunk(OpCode::Return);

    // The local is not set: the value is scaffolded from the path.
    let mut store = Runtime::new();
    assert_eq!(
        run_with(&vm, &mut Event::empty(), &mut store),
        Ok(Value::Integer(5))
    );
    let scaffold = object(vec![(
        "a",
        Value::Array(vec![Value::Null, Value::Null, Value::Integer(5)]),
    )]);
    assert_eq!(store.variable("x"), Some(&scaffold));

    // The local is set: the value goes into what is there.
    let mut store = Runtime::new();
    store.insert_variable(
        "x".to_string(),
        object(vec![
            ("a", Value::Array(vec![Value::Integer(1)])),
            ("b", Value::Boolean(true)),
        ]),
    );
    run_with(&vm, &mut Event::empty(), &mut store).unwrap();
    let filled = object(vec![
        (
            "a",
            Value::Array(vec![Value::Integer(1), Value::Null, Value::Integer(5)]),
        ),
        ("b", Value::Boolean(true)),
    ]);
    assert_eq!(store.variable("x"), Some(&filled));
}

#[test]
fn set_path_counts_from_the_end_in_an_unset_local() {
    for (index, expected) in [
        (-1, vec![Value::Integer(5)]),
        (-3, vec![Value::Integer(5), Value::Null, Value::Null]),
    ] {
        let mut vm = empty_vm();
        let path = Lookup::from_segments(vec![Segment::field("a"), Segment::index(index)]);
        let slot = vm.get_target(&Variable::Internal("x".to_string(), Some(path.clone())));
        constant(&mut vm, Value::Integer(5));
        vm.write_chunk(OpCode::SetPath);
        vm.write_primitive(slot);
        vm.write_chunk(OpCode::Pop);
        vm.write_chunk(OpCode::GetPath);
        vm.write_primitive(slot);
        vm.write_chunk(OpCode::Return);

        let mut store = Runtime::new();
        let mut event = Event::empty();
        // What was stored is what is read at the same path.
        assert_eq!(
            run_with(&vm, &mut event, &mut store),
            Ok(Value::Integer(5))
        );
        assert_eq!(
            store.variable("x"),
            Some(&object(vec![("a", Value::Array(expected))]))
        );
        assert_eq!(event.root, object(Vec::new()));
    }
}

#[test]
fn set_path_to_sink_and_stack_is_dropped() {
    for variable in [Variable::Sink, Variable::Stack(Lookup::root())] {
        let mut vm = empty_vm();
        let slot = vm.get_target(&variable);
        constant(&mut vm, Value::Integer(5));
        vm.write_chunk(OpCode::SetPath);
        vm.write_primitive(slot);
        vm.write_chunk(OpCode::Return);
        let mut store = Runtime::new();
        let mut event = Event::empty();
        assert_eq!(
            run_with(&vm, &mut event, &mut store),
            Ok(Value::Integer(5))
        );
        assert_eq!(store, Runtime::new());
        assert_eq!(event.root, object(Vec::new()));
    }
}

#[test]
fn event_is_read_and_written() {
    let path = Lookup::from_segments(vec![Segment::field("message")]);
    let mut vm = empty_vm();
    let slot = vm.get_target(&Variable::External(path.clone()));
    constant(&mut vm, text("hello"));
    vm.write_chunk(OpCode::SetPath);
    vm.write_primitive(slot);
    vm.write_chunk(OpCode::Pop);
    vm.write_chunk(OpCode::GetPath);
    vm.write_primitive(slot);
    vm.write_chunk(OpCode::Return);
    let mut event = Event::empty();
    assert_eq!(
        run_with(&vm, &mut event, &mut Runtime::new()),
        Ok(text("hello"))
    );
    assert_eq!(event.root, object(vec![("message", text("hello"))]));

    // What the event does not hold reads as null.
    let mut vm = empty_vm();
    let slot = vm.get_target(&Variable::External(path));
    vm.write_chunk(OpCode::GetPath);
    vm.write_primitive(slot);
    vm.write_chunk(OpCode::Return);
    assert_eq!(run(&vm), Ok(Value::Null));

    // A failure of the event ends the run.
    let mut closed = Event::empty();
    closed.fail = true;
    let error = run_with(&vm, &mut closed, &mut Runtime::new()).unwrap_err();
    assert_eq!(error, ExpressionError::Host("event is closed".to_string()));
    assert_eq!(error.message(), "event is closed");
}

struct Repeat;

impl Function<String> for Repeat {
    fn identifier(&self) -> String {
        "repeat".to_string()
    }

    fn parameters(&self) -> Vec<Parameter> {
        vec![
            Parameter {
                keyword: "value".to_string(),
                kind: Kind::bytes(),
                required: true,
            },
            Parameter {
                keyword: "times".to_string(),
                kind: Kind::integer(),
                required: false,
            },
            Parameter {
                keyword: "separator".to_string(),
                kind: Kind::never(),
                required: false,
            },
        ]
    }

    fn call(
        &self,
        ctx: &mut Context,
        args: &mut VmArgumentList<String>,
    ) -> Result<Value, CallError> {
        let value = match args.values[0].take() {
            Some(VmArgument::Value(Value::Bytes(bytes))) => bytes,
            _ => return Err(CallError::new("no value")),
        };
        let times = match args.values[1].take() {
            Some(VmArgument::Value(Value::Integer(times))) => times,
            _ => 2,
        };
        let separator = match args.values[2].take() {
            Some(VmArgument::Any(separator)) => separator.clone(),
            _ => String::new(),
        };
        if times < 0 {
            return Err(CallError::new("negative count"));
        }
        ctx.state
            .insert_variable("calls".to_string(), Value::Integer(times));
        let mut out = Vec::new();
        for i in 0..times {
            if i > 0 {
                out.extend_from_slice(separator.as_bytes());
            }
            out.extend_from_slice(&value);
        }
        Ok(Value::Bytes(out))
    }
}

fn call_vm() -> Vm<String> {
    Vm::new(vec![Box::new(Repeat)])
}

fn finish_call_program(vm: &mut Vm<String>) {
    vm.write_chunk(OpCode::Call);
    vm.write_primitive(0);
    vm.write_primitive(4);
    vm.write_primitive(19);
    let ok = vm.get_target(&Variable::local("ok"));
    let err = vm.get_target(&Variable::local("err"));
    let default = vm.add_constant(Value::Null);
    vm.write_chunk(OpCode::SetPathInfallible);
    vm.write_primitive(ok);
    vm.write_primitive(err);
    vm.write_primitive(default);
    vm.write_chunk(OpCode::Return);
}

#[test]
fn call_with_value_absent_and_static_arguments() {
    let mut vm = call_vm();
    assert!(vm.function(0).is_some());
    assert!(vm.function(1).is_none());
    assert_eq!(vm.function(0).unwrap().identifier(), "repeat");
    let separator = vm.add_static(", ".to_string());
    assert_eq!(separator, 0);
    assert_eq!(vm.add_static("; ".to_string()), 1);
    let slot = vm.add_constant(text("ab"));
    vm.write_chunk(OpCode::Constant);
    vm.write_primitive(slot);
    vm.write_chunk(OpCode::MoveParameter);
    vm.write_chunk(OpCode::EmptyParameter);
    vm.write_chunk(OpCode::MoveStatic);
    vm.write_primitive(separator);
    finish_call_program(&mut vm);
    let mut store = Runtime::new();
    assert_eq!(
        run_with(&vm, &mut Event::empty(), &mut store),
        Ok(text("ab, ab"))
    );
    assert_eq!(store.variable("calls"), Some(&Value::Integer(2)));
    assert_eq!(store.variable("err"), Some(&Value::Null));
}

#[test]
fn call_error_is_annotated_and_recoverable() {
    let mut vm = call_vm();
    constant(&mut vm, text("ab"));
    vm.write_chunk(OpCode::MoveParameter);
    constant(&mut vm, Value::Integer(-1));
    vm.write_chunk(OpCode::MoveParameter);
    vm.write_chunk(OpCode::EmptyParameter);
    finish_call_program(&mut vm);
    let mut store = Runtime::new();
    let message = text("function call error for \"repeat\" at (4:19): negative count");
    assert_eq!(
        run_with(&vm, &mut Event::empty(), &mut store),
        Ok(message.clone())
    );
    assert_eq!(store.variable("ok"), Some(&Value::Null));
    assert_eq!(store.variable("err"), Some(&message));
}

#[test]
fn call_checks_its_arguments() {
    // The required argument is absent: MoveParameter on an empty stack.
    let mut vm = call_vm();
    vm.write_chunk(OpCode::MoveParameter);
    vm.write_chunk(OpCode::EmptyParameter);
    vm.write_chunk(OpCode::EmptyParameter);
    finish_call_program(&mut vm);
    assert_eq!(
        run(&vm),
        Ok(text(
            "function call error for \"repeat\" at (4:19): missing required argument: value"
        ))
    );
    // An argument of a kind that the parameter does not take.
    let mut vm = call_vm();
    constant(&mut vm, text("ab"));
    vm.write_chunk(OpCode::MoveParameter);
    constant(&mut vm, text("three"));
    vm.write_chunk(OpCode::MoveParameter);
    vm.write_chunk(OpCode::EmptyParameter);
    finish_call_program(&mut vm);
    assert_eq!(
        run(&vm),
        Ok(text(
            "function call error for \"repeat\" at (4:19): invalid argument type for: times"
        ))
    );
}

#[test]
fn call_needs_a_function_and_enough_arguments() {
    let mut vm = call_vm();
    vm.write_chunk(OpCode::Call);
    vm.write_primitive(1);
    vm.write_primitive(0);
    vm.write_primitive(0);
    assert_eq!(
        run(&vm),
        Err(ExpressionError::Fetch(FetchError::OutOfRange))
    );
    let mut vm = call_vm();
    vm.write_chunk(OpCode::EmptyParameter);
    vm.write_chunk(OpCode::Call);
    vm.write_primitive(0);
    vm.write_primitive(0);
    vm.write_primitive(0);
    assert_eq!(
        run(&vm),
        Err(ExpressionError::Fetch(FetchError::StackUnderflow))
    );
    let mut vm = call_vm();
    vm.write_chunk(OpCode::MoveStatic);
    vm.write_primitive(0);
    assert_eq!(
        run(&vm),
        Err(ExpressionError::Fetch(FetchError::OutOfRange))
    );
}

#[test]
fn targets_are_shared() {
    let mut vm = empty_vm();
    let path = Lookup::from_segments(vec![Segment::field("a"), Segment::index(0)]);
    let a = vm.get_target(&Variable::External(path.clone()));
    let b = vm.get_target(&Variable::local("x"));
    let c = vm.get_target(&Variable::Internal("x".to_string(), Some(path.clone())));
    let d = vm.get_target(&Variable::Stack(path.clone()));
    let e = vm.get_target(&Variable::Sink);
    assert_eq!((a, b, c, d, e), (0, 1, 2, 3, 4));
    assert_eq!(vm.get_target(&Variable::External(path.clone())), 0);
    assert_eq!(vm.get_target(&Variable::local("x")), 1);
    assert_eq!(
        vm.get_target(&Variable::Internal("x".to_string(), Some(path.clone()))),
        2
    );
    assert_eq!(vm.get_target(&Variable::Stack(path)), 3);
    assert_eq!(vm.get_target(&Variable::Sink), 4);
    assert_eq!(vm.get_target(&Variable::Stack(Lookup::root())), 5);
    assert_eq!(vm.target(5), Some(&Variable::Stack(Lookup::root())));
    assert_eq!(vm.target(6), None);
}

#[test]
fn disassemble_shows_each_instruction() {
    let mut vm = empty_vm();
    constant(&mut vm, Value::Integer(1));
    let slot = vm.emit_jump(OpCode::JumpIfNotErr);
    vm.write_chunk(OpCode::GreaterEqual);
    vm.write_primitive(12345);
    vm.write_chunk(OpCode::SetPathInfallible);
    vm.patch_jump(slot);
    vm.write_chunk(OpCode::Return);
    assert_eq!(
        vm.disassemble(),
        vec![
            "0000: Constant",
            "0001: 0",
            "0002: JumpIfNotErr",
            "0003: 3",
            "0004: GreaterEqual",
            "0005: 12345",
            "0006: SetPathInfallible",
            "0007: Return",
        ]
    );
    let mut vm = empty_vm();
    for _ in 0..1001 {
        vm.write_chunk(OpCode::Pop);
    }
    vm.write_primitive(usize::MAX);
    let lines = vm.disassemble();
    assert_eq!(lines[9], "0009: Pop");
    assert_eq!(lines[10], "0010: Pop");
    assert_eq!(lines[99], "0099: Pop");
    assert_eq!(lines[100], "0100: Pop");
    assert_eq!(lines[999], "0999: Pop");
    assert_eq!(lines[1000], "1000: Pop");
    assert_eq!(lines[1001], format!("1001: {}", usize::MAX));
}

#[test]
fn opcodes_are_shown_by_name() {
    let all = [
        OpCode::Abort,
        OpCode::Return,
        OpCode::Constant,
        OpCode::Negate,
        OpCode::Add,
        OpCode::Subtract,
        OpCode::Multiply,
        OpCode::Divide,
        OpCode::Rem,
        OpCode::Merge,
        OpCode::Not,
        OpCode::Greater,
        OpCode::GreaterEqual,
        OpCode::Less,
        OpCode::LessEqual,
        OpCode::NotEqual,
        OpCode::Equal,
        OpCode::Pop,
        OpCode::ClearError,
        OpCode::JumpIfFalse,
        OpCode::JumpIfTrue,
        OpCode::JumpIfNotErr,
        OpCode::Jump,
        OpCode::SetPathInfallible,
        OpCode::SetPath,
        OpCode::GetPath,
        OpCode::Call,
        OpCode::CreateArray,
        OpCode::CreateObject,
        OpCode::EmptyParameter,
        OpCode::MoveParameter,
        OpCode::MoveStatic,
    ];
    for code in all {
        assert_eq!(vrl_core::machine::opcode_name(code), format!("{:?}", code));
    }
}

#[test]
fn instructions_can_be_overwritten_in_place() {
    let mut vm = empty_vm();
    vm.write_chunk(OpCode::Pop);
    vm.write_primitive(1);
    vm.write_chunk_at(1, OpCode::Return);
    vm.write_primitive_at(0, 9);
    assert_eq!(
        vm.instructions(),
        &vec![
            Instruction::Primitive(9),
            Instruction::OpCode(OpCode::Return)
        ]
    );
    assert_eq!(vm.constant(0), None);
    let slot = vm.add_constant(Value::Integer(3));
    assert_eq!(vm.constant(slot), Some(&Value::Integer(3)));
    assert_eq!(vm.static_param(0), None);
}

#[test]
fn pop_on_empty_stack_does_nothing() {
    let mut vm = empty_vm();
    vm.write_chunk(OpCode::Pop);
    constant(&mut vm, Value::Integer(1));
    vm.write_chunk(OpCode::Return);
    assert_eq!(run(&vm), Ok(Value::Integer(1)));
}
