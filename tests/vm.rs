use petrel::error::VMError;
use petrel::vm::{ArithOp, Opcode, Step, Value, VM};

/// Test that the opcode is byte sized
#[test]
fn vm_opcode_size() {
    assert_eq!(std::mem::size_of::<Opcode>(), 1);
}

fn run(vm: &mut VM) -> Result<Value, VMError> {
    loop {
        match vm.step()? {
            Step::Halt => return Ok(vm.stack.last().copied().unwrap_or(Value::Null)),
            Step::Continue => {}
            Step::Binary(op, a, b) => {
                let (x, y) = (f64::from_bits(a), f64::from_bits(b));
                let r = match op {
                    ArithOp::Add => x + y,
                    ArithOp::Subtract => x - y,
                    ArithOp::Multiply => x * y,
                    ArithOp::Divide => x / y,
                };
                vm.stack.push(Value::Number(r.to_bits()));
            }
            Step::Negate(a) => vm.stack.push(Value::Number((-f64::from_bits(a)).to_bits())),
        }
    }
}

#[test]
fn vm_basic_arithmatic() {
    let mut vm = VM::new();
    let a = vm.write_constant(Value::Number(2.5f64.to_bits())).unwrap();
    let b = vm.write_constant(Value::Number(7.5f64.to_bits())).unwrap();
    let c = vm.write_constant(Value::Number(2.0f64.to_bits())).unwrap();
    vm.write_operation(Opcode::OpConstant.into(), 123);
    vm.write_operation(a, 123);
    vm.write_operation(Opcode::OpConstant.into(), 123);
    vm.write_operation(b, 123);
    vm.write_operation(Opcode::OpAdd.into(), 123);
    vm.write_operation(Opcode::OpConstant.into(), 123);
    vm.write_operation(c, 123);
    vm.write_operation(Opcode::OpDivide.into(), 123);
    vm.write_operation(Opcode::OpReturn.into(), 123);
    assert_eq!(run(&mut vm).unwrap(), Value::Number(5.0f64.to_bits()));
}

#[test]
fn subtraction_keeps_operand_order() {
    let mut vm = VM::new();
    let a = vm.write_constant(Value::Number(10.0f64.to_bits())).unwrap();
    let b = vm.write_constant(Value::Number(4.0f64.to_bits())).unwrap();
    for byte in [Opcode::OpConstant.to_byte(), a, Opcode::OpConstant.to_byte(), b] {
        vm.write_operation(byte, 1);
    }
    vm.write_operation(Opcode::OpSubtract.to_byte(), 1);
    assert_eq!(vm.step(), Ok(Step::Continue));
    assert_eq!(vm.step(), Ok(Step::Continue));
    assert_eq!(vm.step(), Ok(Step::Binary(ArithOp::Subtract, 10.0f64.to_bits(), 4.0f64.to_bits())));
    assert!(vm.stack.is_empty());
    assert_eq!(vm.ip, 5);
}

#[test]
fn write_constant_returns_the_index() {
    let mut vm = VM::new();
    assert_eq!(vm.write_constant(Value::Null), Some(0));
    assert_eq!(vm.write_constant(Value::Bool(true)), Some(1));
    assert_eq!(vm.constants, vec![Value::Null, Value::Bool(true)]);
}

#[test]
fn full_constant_pool_refuses_a_value() {
    let mut vm = VM::new();
    for i in 0..256u64 {
        assert_eq!(vm.write_constant(Value::Number(i)), Some(i as u8));
    }
    assert_eq!(vm.write_constant(Value::Number(256)), None);
    assert_eq!(vm.constants.len(), 256);
    assert_eq!(vm.constants[0], Value::Number(0));
}

#[test]
fn missing_return_is_an_error() {
    let mut vm = VM::new();
    vm.write_operation(Opcode::OpTrue.to_byte(), 1);
    assert_eq!(run(&mut vm), Err(VMError::NoReturn));
}

#[test]
fn empty_stack_is_an_error() {
    let mut vm = VM::new();
    vm.write_operation(Opcode::OpAdd.to_byte(), 1);
    assert_eq!(vm.step(), Err(VMError::EmptyStack));
    let mut vm = VM::default();
    vm.write_operation(Opcode::OpNot.to_byte(), 1);
    assert_eq!(vm.step(), Err(VMError::EmptyStack));
}

#[test]
fn unknown_opcode_is_an_error() {
    let mut vm = VM::new();
    vm.write_operation(200, 1);
    assert_eq!(vm.step(), Err(VMError::InvalidOpcodeConversion(200)));
    assert_eq!(Opcode::from_byte(10), Ok(Opcode::OpNot));
    assert_eq!(Opcode::from_byte(11), Err(VMError::InvalidOpcodeConversion(11)));
}

#[test]
fn bad_constant_operand_is_an_error() {
    let mut vm = VM::new();
    vm.write_operation(Opcode::OpConstant.to_byte(), 1);
    assert_eq!(vm.step(), Err(VMError::NoReturn));
    vm.write_operation(3, 1);
    assert_eq!(vm.step(), Err(VMError::InvalidConstant(3)));
}

#[test]
fn return_halts_in_place() {
    let mut vm = VM::new();
    vm.write_operation(Opcode::OpNull.to_byte(), 1);
    vm.write_operation(Opcode::OpReturn.to_byte(), 1);
    assert_eq!(vm.step(), Ok(Step::Continue));
    assert_eq!(vm.step(), Ok(Step::Halt));
    assert_eq!(vm.ip, 1);
    assert_eq!(vm.stack, vec![Value::Null]);
}
