//! The bytecode virtual machine: a fetch-decode-execute step over a flat
//! instruction log against an operand stack.
//!
//! Numbers are IEEE-754 binary64 values that the machine moves and checks the
//! type of but does not compute with: an arithmetic instruction hands its
//! operands out as a [`Step`], and the caller pushes the result.
use vstd::prelude::*;

use crate::error::{Context, Fault, VMError};

verus! {

/// The instruction set.
#[derive(Debug, PartialEq, Eq, Structural, Clone, Copy)]
pub enum Opcode {
    OpReturn,
    OpConstant,
    OpNegate,
    OpAdd,
    OpSubtract,
    OpMultiply,
    OpDivide,
    OpNull,
    OpTrue,
    OpFalse,
    OpNot,
}

/// The byte that encodes an opcode.
pub open spec fn byte_of(op: Opcode) -> u8 {
    match op {
        Opcode::OpReturn => 0,
        Opcode::OpConstant => 1,
        Opcode::OpNegate => 2,
        Opcode::OpAdd => 3,
        Opcode::OpSubtract => 4,
        Opcode::OpMultiply => 5,
        Opcode::OpDivide => 6,
        Opcode::OpNull => 7,
        Opcode::OpTrue => 8,
        Opcode::OpFalse => 9,
        Opcode::OpNot => 10,
    }
}

/// The opcode that a byte encodes, if any.
pub open spec fn decode(b: u8) -> Option<Opcode> {
    if b == 0 {
        Some(Opcode::OpReturn)
    } else if b == 1 {
        Some(Opcode::OpConstant)
    } else if b == 2 {
        Some(Opcode::OpNegate)
    } else if b == 3 {
        Some(Opcode::OpAdd)
    } else if b == 4 {
        Some(Opcode::OpSubtract)
    } else if b == 5 {
        Some(Opcode::OpMultiply)
    } else if b == 6 {
        Some(Opcode::OpDivide)
    } else if b == 7 {
        Some(Opcode::OpNull)
    } else if b == 8 {
        Some(Opcode::OpTrue)
    } else if b == 9 {
        Some(Opcode::OpFalse)
    } else if b == 10 {
        Some(Opcode::OpNot)
    } else {
        None
    }
}

impl Opcode {
    /// The byte that encodes this opcode.
    pub fn to_byte(self) -> (r: u8)
        ensures
            r == byte_of(self),
            decode(r) == Some(self),
    {
        match self {
            Opcode::OpReturn => 0,
            Opcode::OpConstant => 1,
            Opcode::OpNegate => 2,
            Opcode::OpAdd => 3,
            Opcode::OpSubtract => 4,
            Opcode::OpMultiply => 5,
            Opcode::OpDivide => 6,
            Opcode::OpNull => 7,
            Opcode::OpTrue => 8,
            Opcode::OpFalse => 9,
            Opcode::OpNot => 10,
        }
    }

    /// Decode a byte into an opcode.
    pub fn from_byte(src: u8) -> (r: Result<Opcode, VMError>)
        ensures
            match decode(src) {
                Some(op) => r == Ok::<Opcode, VMError>(op),
                None => r == Err::<Opcode, VMError>(VMError::InvalidOpcodeConversion(src)),
            },
    {
        match src {
            0 => Ok(Opcode::OpReturn),
            1 => Ok(Opcode::OpConstant),
            2 => Ok(Opcode::OpNegate),
            3 => Ok(Opcode::OpAdd),
            4 => Ok(Opcode::OpSubtract),
            5 => Ok(Opcode::OpMultiply),
            6 => Ok(Opcode::OpDivide),
            7 => Ok(Opcode::OpNull),
            8 => Ok(Opcode::OpTrue),
            9 => Ok(Opcode::OpFalse),
            10 => Ok(Opcode::OpNot),
            _ => Err(VMError::InvalidOpcodeConversion(src)),
        }
    }
}

impl From<Opcode> for u8 {
    fn from(code: Opcode) -> (r: u8) {
        code.to_byte()
    }
}

impl vstd::std_specs::convert::FromSpecImpl<Opcode> for u8 {
    open spec fn obeys_from_spec() -> bool {
        true
    }

    open spec fn from_spec(code: Opcode) -> u8 {
        byte_of(code)
    }
}

/// A runtime value. A number is held as the bit pattern of an IEEE-754
/// binary64 value.
#[derive(Debug, PartialEq, Eq, Structural, Clone, Copy)]
pub enum Value {
    Number(u64),
    Bool(bool),
    Null,
}

/// One entry of the instruction log: an opcode byte, or the operand byte of
/// the instruction before it, with the source line it came from.
#[derive(Debug, PartialEq, Eq, Structural, Clone, Copy)]
pub struct Operation {
    pub opcode: u8,
    pub line: usize,
}

/// The four arithmetic operators.
#[derive(Debug, PartialEq, Eq, Structural, Clone, Copy)]
pub enum ArithOp {
    Add,
    Subtract,
    Multiply,
    Divide,
}

/// What one executed instruction asks of the caller.
#[derive(Debug, PartialEq, Eq, Structural, Clone, Copy)]
pub enum Step {
    /// Nothing: go on.
    Continue,
    /// A return was reached: the machine is in its terminal state.
    Halt,
    /// Push the number `lhs op rhs`; both operands have been popped.
    Binary(ArithOp, u64, u64),
    /// Push the negation of the number; the operand has been popped.
    Negate(u64),
}

/// The arithmetic operator of an opcode, if it is one.
pub open spec fn arith_of(op: Opcode) -> Option<ArithOp> {
    match op {
        Opcode::OpAdd => Some(ArithOp::Add),
        Opcode::OpSubtract => Some(ArithOp::Subtract),
        Opcode::OpMultiply => Some(ArithOp::Multiply),
        Opcode::OpDivide => Some(ArithOp::Divide),
        _ => None,
    }
}

/// The state of a machine as mathematical values: the instruction log, the
/// constant pool, the operand stack and the instruction pointer.
pub struct MachineState {
    pub ins: Seq<Operation>,
    pub consts: Seq<Value>,
    pub stack: Seq<Value>,
    pub ip: int,
}

impl MachineState {
    /// The instruction at the instruction pointer, decoded.
    pub open spec fn fetched(&self) -> Option<Opcode> {
        decode(self.ins[self.ip].opcode)
    }

    /// What executing the instruction at the instruction pointer returns.
    pub open spec fn step_result(&self) -> Result<Step, VMError> {
        let n = self.stack.len();
        let ins = self.ins[self.ip];
        let rt = |fault: Fault| Err(VMError::Runtime(Context { line: ins.line, fault }));
        if self.ip >= self.ins.len() {
            Err(VMError::NoReturn)
        } else {
            match decode(ins.opcode) {
                None => Err(VMError::InvalidOpcodeConversion(ins.opcode)),
                Some(op) => match op {
                    Opcode::OpReturn => Ok(Step::Halt),
                    Opcode::OpConstant => if self.ip + 1 >= self.ins.len() {
                        Err(VMError::NoReturn)
                    } else {
                        let idx = self.ins[self.ip + 1].opcode;
                        if idx >= self.consts.len() {
                            Err(VMError::InvalidConstant(idx))
                        } else {
                            Ok(Step::Continue)
                        }
                    },
                    Opcode::OpNegate => if n < 1 {
                        Err(VMError::EmptyStack)
                    } else {
                        match self.stack[n - 1] {
                            Value::Number(x) => Ok(Step::Negate(x)),
                            _ => rt(Fault::NegateNonNumber),
                        }
                    },
                    Opcode::OpNot => if n < 1 {
                        Err(VMError::EmptyStack)
                    } else {
                        match self.stack[n - 1] {
                            Value::Number(_) => rt(Fault::NotNonBoolean),
                            _ => Ok(Step::Continue),
                        }
                    },
                    Opcode::OpNull | Opcode::OpTrue | Opcode::OpFalse => Ok(Step::Continue),
                    _ => if n < 2 {
                        Err(VMError::EmptyStack)
                    } else {
                        match (self.stack[n - 2], self.stack[n - 1]) {
                            (Value::Number(a), Value::Number(b)) => Ok(
                                Step::Binary(arith_of(op).unwrap(), a, b),
                            ),
                            _ => rt(Fault::OperandsMustBeNumbers),
                        }
                    },
                },
            }
        }
    }

    /// The operand stack after a successful step.
    pub open spec fn step_stack(&self) -> Seq<Value> {
        let s = self.stack;
        let n = s.len();
        match self.fetched() {
            Some(Opcode::OpConstant) => s.push(
                self.consts[self.ins[self.ip + 1].opcode as int],
            ),
            Some(Opcode::OpNegate) => s.drop_last(),
            Some(Opcode::OpNot) => match s[n - 1] {
                Value::Bool(b) => s.update(n - 1, Value::Bool(!b)),
                _ => s,
            },
            Some(Opcode::OpNull) => s.push(Value::Null),
            Some(Opcode::OpTrue) => s.push(Value::Bool(true)),
            Some(Opcode::OpFalse) => s.push(Value::Bool(false)),
            Some(Opcode::OpReturn) => s,
            _ => s.subrange(0, n - 2),
        }
    }

    /// The instruction pointer after a successful step: a return stays where
    /// it is, a constant skips its operand byte.
    pub open spec fn step_ip(&self) -> int {
        match self.fetched() {
            Some(Opcode::OpReturn) => self.ip,
            Some(Opcode::OpConstant) => self.ip + 2,
            _ => self.ip + 1,
        }
    }

}

#[derive(Debug)]
pub struct VM {
    pub instructions: Vec<Operation>,
    pub constants: Vec<Value>,
    pub stack: Vec<Value>,
    pub ip: usize,
}

impl VM {
    /// The machine's state.
    pub open spec fn state(&self) -> MachineState {
        MachineState {
            ins: self.instructions@,
            consts: self.constants@,
            stack: self.stack@,
            ip: self.ip as int,
        }
    }

    /// What executing the instruction at the instruction pointer returns.
    pub open spec fn step_result(&self) -> Result<Step, VMError> {
        self.state().step_result()
    }

    /// The operand stack after a successful step.
    pub open spec fn step_stack(&self) -> Seq<Value> {
        self.state().step_stack()
    }

    /// The instruction pointer after a successful step.
    pub open spec fn step_ip(&self) -> int {
        self.state().step_ip()
    }

    /// Two machines in the same state take the same step: the outcome of an
    /// instruction depends on nothing but the instruction log, the constant
    /// pool, the operand stack and the instruction pointer.
    pub proof fn lemma_step_deterministic(a: VM, b: VM)
        requires
            a.instructions@ == b.instructions@,
            a.constants@ == b.constants@,
            a.stack@ == b.stack@,
            a.ip == b.ip,
        ensures
            a.step_result() == b.step_result(),
            a.step_stack() == b.step_stack(),
            a.step_ip() == b.step_ip(),
    {
    }

    pub fn new() -> (r: VM)
        ensures
            r.instructions@ == Seq::<Operation>::empty(),
            r.constants@ == Seq::<Value>::empty(),
            r.stack@ == Seq::<Value>::empty(),
            r.ip == 0,
    {
        VM { instructions: Vec::new(), constants: Vec::new(), stack: Vec::new(), ip: 0 }
    }

    /// Pop two numbers for an arithmetic instruction.
    fn binary(&mut self, op: ArithOp, line: usize) -> (r: Result<Step, VMError>)
        ensures
            final(self).instructions == old(self).instructions,
            final(self).constants == old(self).constants,
            final(self).ip == old(self).ip,
            ({
                let s = old(self).stack@;
                let n = s.len();
                if n < 2 {
                    r == Err::<Step, VMError>(VMError::EmptyStack) && final(self).stack@ == s
                } else {
                    match (s[n - 2], s[n - 1]) {
                        (Value::Number(a), Value::Number(b)) => r == Ok::<Step, VMError>(
                            Step::Binary(op, a, b),
                        ) && final(self).stack@ == s.subrange(0, n - 2),
                        _ => r == Err::<Step, VMError>(
                            VMError::Runtime(Context { line, fault: Fault::OperandsMustBeNumbers }),
                        ) && final(self).stack@ == s,
                    }
                }
            }),
    {
        let n = self.stack.len();
        if n < 2 {
            return Err(VMError::EmptyStack);
        }
        match (self.stack[n - 2], self.stack[n - 1]) {
            (Value::Number(a), Value::Number(b)) => {
                let ghost s = self.stack@;
                self.stack.pop();
                self.stack.pop();
                assert(self.stack@ =~= s.subrange(0, n - 2));
                Ok(Step::Binary(op, a, b))
            },
            _ => Err(VMError::Runtime(Context { line, fault: Fault::OperandsMustBeNumbers })),
        }
    }

    /// Execute the instruction at the instruction pointer.
    pub fn step(&mut self) -> (r: Result<Step, VMError>)
        ensures
            final(self).instructions == old(self).instructions,
            final(self).constants == old(self).constants,
            r == old(self).step_result(),
            r is Ok ==> final(self).stack@ == old(self).step_stack() && final(self).ip
                == old(self).step_ip(),
            r is Err ==> final(self).stack@ == old(self).stack@ && final(self).ip == old(self).ip,
    {
        if self.ip >= self.instructions.len() {
            return Err(VMError::NoReturn);
        }
        let ins = self.instructions[self.ip];
        let op = match Opcode::from_byte(ins.opcode) {
            Ok(op) => op,
            Err(e) => {
                return Err(e);
            },
        };
        let n = self.stack.len();
        let ghost s = self.stack@;
        let r = match op {
            Opcode::OpReturn => {
                return Ok(Step::Halt);
            },
            Opcode::OpConstant => {
                if self.ip + 1 >= self.instructions.len() {
                    return Err(VMError::NoReturn);
                }
                let idx = self.instructions[self.ip + 1].opcode;
                if idx as usize >= self.constants.len() {
                    return Err(VMError::InvalidConstant(idx));
                }
                let v = self.constants[idx as usize];
                self.stack.push(v);
                self.ip = self.ip + 2;
                return Ok(Step::Continue);
            },
            Opcode::OpNegate => {
                if n < 1 {
                    return Err(VMError::EmptyStack);
                }
                match self.stack[n - 1] {
                    Value::Number(x) => {
                        self.stack.pop();
                        assert(self.stack@ =~= s.drop_last());
                        Step::Negate(x)
                    },
                    _ => {
                        return Err(
                            VMError::Runtime(Context { line: ins.line, fault: Fault::NegateNonNumber }),
                        );
                    },
                }
            },
            Opcode::OpNot => {
                if n < 1 {
                    return Err(VMError::EmptyStack);
                }
                match self.stack[n - 1] {
                    Value::Bool(b) => {
                        self.stack.pop();
                        self.stack.push(Value::Bool(!b));
                        assert(self.stack@ =~= s.update(n - 1, Value::Bool(!b)));
                    },
                    // !null == null, so it stays
                    Value::Null => {},
                    Value::Number(_) => {
                        return Err(
                            VMError::Runtime(Context { line: ins.line, fault: Fault::NotNonBoolean }),
                        );
                    },
                }
                Step::Continue
            },
            Opcode::OpNull => {
                self.stack.push(Value::Null);
                Step::Continue
            },
            Opcode::OpTrue => {
                self.stack.push(Value::Bool(true));
                Step::Continue
            },
            Opcode::OpFalse => {
                self.stack.push(Value::Bool(false));
                Step::Continue
            },
            Opcode::OpAdd => match self.binary(ArithOp::Add, ins.line) {
                Ok(st) => st,
                Err(e) => {
                    return Err(e);
                },
            },
            Opcode::OpSubtract => match self.binary(ArithOp::Subtract, ins.line) {
                Ok(st) => st,
                Err(e) => {
                    return Err(e);
                },
            },
            Opcode::OpMultiply => match self.binary(ArithOp::Multiply, ins.line) {
                Ok(st) => st,
                Err(e) => {
                    return Err(e);
                },
            },
            Opcode::OpDivide => match self.binary(ArithOp::Divide, ins.line) {
                Ok(st) => st,
                Err(e) => {
                    return Err(e);
                },
            },
        };
        self.ip = self.ip + 1;
        Ok(r)
    }

    /// Add a value to the constant pool and return its index. The pool
    /// holds at most 256 values, each named by one byte: when it is full the
    /// value is refused and nothing changes.
    pub fn write_constant(&mut self, constant: Value) -> (r: Option<u8>)
        ensures
            final(self).instructions == old(self).instructions,
            final(self).stack == old(self).stack,
            final(self).ip == old(self).ip,
            old(self).constants@.len() < 256 ==> {
                &&& final(self).constants@ == old(self).constants@.push(constant)
                &&& r == Some(old(self).constants@.len() as u8)
            },
            old(self).constants@.len() >= 256 ==> {
                &&& final(self).constants == old(self).constants
                &&& r is None
            },
    {
        if self.constants.len() >= 256 {
            return None;
        }
        self.constants.push(constant);
        Some((self.constants.len() - 1) as u8)
    }

    /// Append an entry to the instruction log.
    pub fn write_operation(&mut self, code: u8, line: usize)
        ensures
            final(self).instructions@ == old(self).instructions@.push(
                Operation { opcode: code, line },
            ),
            final(self).constants == old(self).constants,
            final(self).stack == old(self).stack,
            final(self).ip == old(self).ip,
    {
        let op = Operation { opcode: code, line };
        self.instructions.push(op);
    }
}

impl Default for VM {
    fn default() -> (r: VM)
        ensures
            r.instructions@ == Seq::<Operation>::empty(),
            r.constants@ == Seq::<Value>::empty(),
            r.stack@ == Seq::<Value>::empty(),
            r.ip == 0,
    {
        VM::new()
    }
}

} // verus!
