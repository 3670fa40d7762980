//! The error taxonomy shared by the scanner, the compiler, the virtual
//! machine and the block allocator.
use vstd::prelude::*;

use crate::token::Token;

verus! {

/// General error type of the toolchain.
#[derive(Debug)]
pub enum PetrelError {
    /// A character that starts no token, with its offset in the source.
    UnknownCharacter(char, usize),
    /// A string literal that the source ends inside of.
    MissingDoubleQuote,
    /// The virtual machine could not go on.
    VMError(VMError),
    /// A compile unit needs more constants than a one-byte index can name.
    TooManyConstants(Token),
    /// The token sequence does not follow the grammar.
    SyntaxError(SyntaxError),
}

/// Why a runtime type check failed.
#[derive(Debug, PartialEq, Eq, Structural, Clone, Copy)]
pub enum Fault {
    /// An arithmetic operator met an operand that is not a number.
    OperandsMustBeNumbers,
    /// Negation met an operand that is not a number.
    NegateNonNumber,
    /// Logical not met an operand that is neither a boolean nor null.
    NotNonBoolean,
}

impl Fault {
    /// The text shown for the fault.
    pub fn message(&self) -> (r: &'static str)
        ensures
            *self == Fault::OperandsMustBeNumbers ==> r@ == "Operands must be numbers"@,
            *self == Fault::NegateNonNumber ==> r@ == "Attempted to negate a non number"@,
            *self == Fault::NotNonBoolean ==> r@ == "Attempted to use logical not on a non boolean"@,
    {
        match self {
            Fault::OperandsMustBeNumbers => "Operands must be numbers",
            Fault::NegateNonNumber => "Attempted to negate a non number",
            Fault::NotNonBoolean => "Attempted to use logical not on a non boolean",
        }
    }
}

/// Where and why a runtime check failed.
#[derive(Debug, PartialEq, Eq, Structural, Clone, Copy)]
pub struct Context {
    /// The source line of the offending instruction
    pub line: usize,
    /// What went wrong
    pub fault: Fault,
}

/// Errors that can occur in the VM.
#[derive(Debug, PartialEq, Eq, Structural, Clone, Copy)]
pub enum VMError {
    /// A byte that names no opcode.
    InvalidOpcodeConversion(u8),
    /// A constant instruction whose operand names no entry of the pool.
    InvalidConstant(u8),
    /// An operation needed more values than the stack holds.
    EmptyStack,
    /// The instructions ended without a return.
    NoReturn,
    /// A runtime type error.
    Runtime(Context),
}

/// Errors of the block allocator.
#[derive(Debug, PartialEq, Eq, Structural, Clone, Copy)]
pub enum BlockError {
    /// The block size requested was not a power of two.
    BadRequest,
    /// The memory could not be had.
    OOM,
}

/// Errors due to actual problems in the code.
#[derive(Debug)]
pub enum SyntaxError {
    /// A token that begins no expression stood where one was needed.
    ExpectedExpression(Annotation),
    /// A token other than the one that the grammar asks for.
    ExpectedToken(Annotation),
}

/// A diagnostic: the offending token, the text of its source line and a
/// message.
#[derive(Debug)]
pub struct Annotation {
    /// The offending token
    pub token: Token,
    /// The text of the line the token is on
    pub source: String,
    /// What is wrong
    pub info: String,
}

impl Annotation {
    pub fn new(message: String, tk: Token, src: String) -> (r: Annotation)
        ensures
            r.token == tk,
            r.source@ == src@,
            r.info@ == message@,
    {
        Annotation { token: tk, source: src, info: message }
    }
}

} // verus!
