//! The single-pass Pratt compiler: it reads tokens and emits bytecode into a
//! virtual machine directly, with no syntax tree in between.
use vstd::prelude::*;

use crate::error::{Annotation, PetrelError, SyntaxError};
use crate::text::{chars_of, string_of};
use crate::token::{Token, TokenType};
use crate::vm::{byte_of, Opcode, Operation, Value, VM};

verus! {

/// The operator precedence, from loosest to tightest.
#[derive(Debug, PartialEq, Eq, Structural, Clone, Copy)]
pub enum Precedence {
    Lowest,
    Assignment,  // =
    Or,  // or
    And,  // and
    Equality,  // == !=
    Comparison,  // < > <= >=
    Term,  // + -
    Factor,  // * /
    Unary,  // ! -
    Call,  // . ()
    Primary,
}

/// The ordinal of a precedence, 0 to 10.
pub open spec fn level(p: Precedence) -> nat {
    match p {
        Precedence::Lowest => 0,
        Precedence::Assignment => 1,
        Precedence::Or => 2,
        Precedence::And => 3,
        Precedence::Equality => 4,
        Precedence::Comparison => 5,
        Precedence::Term => 6,
        Precedence::Factor => 7,
        Precedence::Unary => 8,
        Precedence::Call => 9,
        Precedence::Primary => 10,
    }
}

/// The precedence of an ordinal; anything above 10 is the highest.
pub open spec fn precedence_at(p: u8) -> Precedence {
    if p == 0 {
        Precedence::Lowest
    } else if p == 1 {
        Precedence::Assignment
    } else if p == 2 {
        Precedence::Or
    } else if p == 3 {
        Precedence::And
    } else if p == 4 {
        Precedence::Equality
    } else if p == 5 {
        Precedence::Comparison
    } else if p == 6 {
        Precedence::Term
    } else if p == 7 {
        Precedence::Factor
    } else if p == 8 {
        Precedence::Unary
    } else if p == 9 {
        Precedence::Call
    } else {
        Precedence::Primary
    }
}

impl Precedence {
    /// The ordinal of this precedence.
    pub fn level(&self) -> (r: u8)
        ensures
            r == level(*self),
    {
        match self {
            Precedence::Lowest => 0,
            Precedence::Assignment => 1,
            Precedence::Or => 2,
            Precedence::And => 3,
            Precedence::Equality => 4,
            Precedence::Comparison => 5,
            Precedence::Term => 6,
            Precedence::Factor => 7,
            Precedence::Unary => 8,
            Precedence::Call => 9,
            Precedence::Primary => 10,
        }
    }
}

impl From<u8> for Precedence {
    fn from(p: u8) -> (r: Precedence) {
        match p {
            0 => Precedence::Lowest,
            1 => Precedence::Assignment,
            2 => Precedence::Or,
            3 => Precedence::And,
            4 => Precedence::Equality,
            5 => Precedence::Comparison,
            6 => Precedence::Term,
            7 => Precedence::Factor,
            8 => Precedence::Unary,
            9 => Precedence::Call,
            // Return the highest precedence if asked for higher
            _ => Precedence::Primary,
        }
    }
}

impl vstd::std_specs::convert::FromSpecImpl<u8> for Precedence {
    open spec fn obeys_from_spec() -> bool {
        true
    }

    open spec fn from_spec(p: u8) -> Precedence {
        precedence_at(p)
    }
}

/// How a token that begins an expression is compiled.
#[derive(Debug, PartialEq, Eq, Structural, Clone, Copy)]
pub enum Prefix {
    /// A parenthesised expression.
    Grouping,
    /// `-` or `!` applied to an operand.
    Unary,
    /// A number literal.
    Number,
    /// `true`, `false` or `null`.
    Literal,
}

/// How a token that follows a complete operand is compiled.
#[derive(Debug, PartialEq, Eq, Structural, Clone, Copy)]
pub enum Infix {
    /// A left-associative binary operator.
    Binary,
}

/// Rule for parsing a token.
#[derive(Debug, Clone, Copy)]
pub struct ParseRule {
    pub prefix: Option<Prefix>,
    pub infix: Option<Infix>,
    pub precedence: Precedence,
}

/// The rule of a token kind.
pub open spec fn rule_of(tt: TokenType) -> ParseRule {
    match tt {
        TokenType::LeftParen => ParseRule {
            prefix: Some(Prefix::Grouping),
            infix: None,
            precedence: Precedence::Lowest,
        },
        TokenType::Minus => ParseRule {
            prefix: Some(Prefix::Unary),
            infix: Some(Infix::Binary),
            precedence: Precedence::Term,
        },
        TokenType::Plus => ParseRule {
            prefix: None,
            infix: Some(Infix::Binary),
            precedence: Precedence::Term,
        },
        TokenType::Slash => ParseRule {
            prefix: None,
            infix: Some(Infix::Binary),
            precedence: Precedence::Factor,
        },
        TokenType::Star => ParseRule {
            prefix: None,
            infix: Some(Infix::Binary),
            precedence: Precedence::Factor,
        },
        TokenType::Number => ParseRule {
            prefix: Some(Prefix::Number),
            infix: None,
            precedence: Precedence::Lowest,
        },
        TokenType::False | TokenType::True | TokenType::Null => ParseRule {
            prefix: Some(Prefix::Literal),
            infix: None,
            precedence: Precedence::Lowest,
        },
        TokenType::Bang => ParseRule {
            prefix: Some(Prefix::Unary),
            infix: None,
            precedence: Precedence::Lowest,
        },
        _ => ParseRule { prefix: None, infix: None, precedence: Precedence::Lowest },
    }
}

impl Default for ParseRule {
    fn default() -> (r: ParseRule)
        ensures
            r.prefix is None,
            r.infix is None,
            r.precedence == Precedence::Lowest,
    {
        ParseRule { prefix: None, infix: None, precedence: Precedence::Lowest }
    }
}

impl TokenType {
    /// Get the parse rule for the token kind.
    pub fn get_rule(&self) -> (r: ParseRule)
        ensures
            r == rule_of(*self),
    {
        match self {
            TokenType::LeftParen => ParseRule {
                prefix: Some(Prefix::Grouping),
                infix: None,
                precedence: Precedence::Lowest,
            },
            TokenType::Minus => ParseRule {
                prefix: Some(Prefix::Unary),
                infix: Some(Infix::Binary),
                precedence: Precedence::Term,
            },
            TokenType::Plus => ParseRule {
                prefix: None,
                infix: Some(Infix::Binary),
                precedence: Precedence::Term,
            },
            TokenType::Slash => ParseRule {
                prefix: None,
                infix: Some(Infix::Binary),
                precedence: Precedence::Factor,
            },
            TokenType::Star => ParseRule {
                prefix: None,
                infix: Some(Infix::Binary),
                precedence: Precedence::Factor,
            },
            TokenType::Number => ParseRule {
                prefix: Some(Prefix::Number),
                infix: None,
                precedence: Precedence::Lowest,
            },
            TokenType::False | TokenType::True | TokenType::Null => ParseRule {
                prefix: Some(Prefix::Literal),
                infix: None,
                precedence: Precedence::Lowest,
            },
            TokenType::Bang => ParseRule {
                prefix: Some(Prefix::Unary),
                infix: None,
                precedence: Precedence::Lowest,
            },
            _ => ParseRule::default(),
        }
    }
}

/// The opcode of a prefix operator token.
pub open spec fn unary_op(tt: TokenType) -> Opcode {
    if tt == TokenType::Minus {
        Opcode::OpNegate
    } else {
        Opcode::OpNot
    }
}

/// The opcode of a literal token.
pub open spec fn literal_op(tt: TokenType) -> Opcode {
    if tt == TokenType::False {
        Opcode::OpFalse
    } else if tt == TokenType::True {
        Opcode::OpTrue
    } else {
        Opcode::OpNull
    }
}

/// The opcode of a binary operator token.
pub open spec fn binary_op(tt: TokenType) -> Opcode {
    if tt == TokenType::Plus {
        Opcode::OpAdd
    } else if tt == TokenType::Minus {
        Opcode::OpSubtract
    } else if tt == TokenType::Star {
        Opcode::OpMultiply
    } else {
        Opcode::OpDivide
    }
}

/// The precedence one step tighter than `p`, as an ordinal.
pub open spec fn tighter(p: Precedence) -> nat {
    if level(p) < 10 {
        level(p) + 1
    } else {
        10
    }
}

/// Why compiling stopped.
pub enum Failure {
    /// The token cannot begin an expression.
    ExpectedExpression(Token),
    /// The token is not the one that the grammar asks for here.
    ExpectedToken(Token),
    /// The literal would need a 257th constant.
    TooManyConstants(Token),
}

/// What compiling from a token onwards yields: the index of the next token,
/// and the instruction log and constant pool so far.
pub type Emitted = (int, Seq<Operation>, Seq<Value>);

pub open spec fn op_at(op: Opcode, line: usize) -> Operation {
    Operation { opcode: byte_of(op), line }
}

/// Compile an expression whose first token is at `i`, taking infix operators
/// of at least the precedence ordinal `min`.
pub open spec fn parse_prec(
    toks: Seq<Token>,
    lits: Seq<u64>,
    i: int,
    min: nat,
    ops: Seq<Operation>,
    consts: Seq<Value>,
) -> Result<Emitted, Failure>
    decreases toks.len() - i, 0int,
{
    if !(0 <= i < toks.len()) {
        Ok((i, ops, consts))
    } else {
        let t = toks[i];
        match rule_of(t.tt).prefix {
            None => Err(Failure::ExpectedExpression(t)),
            Some(h) => match prefix(toks, lits, i + 1, h, ops, consts) {
                Err(f) => Err(f),
                Ok((j, o, c)) => if i < j <= toks.len() {
                    infix(toks, lits, j, min, o, c)
                } else {
                    Ok((j, o, c))
                },
            },
        }
    }
}

/// Compile the rest of an expression whose prefix token is at `j - 1`.
pub open spec fn prefix(
    toks: Seq<Token>,
    lits: Seq<u64>,
    j: int,
    h: Prefix,
    ops: Seq<Operation>,
    consts: Seq<Value>,
) -> Result<Emitted, Failure>
    decreases toks.len() - j, 1int,
{
    let prev = toks[j - 1];
    if !(1 <= j <= toks.len()) {
        Ok((j, ops, consts))
    } else {
        match h {
            Prefix::Grouping => match parse_prec(toks, lits, j, 1, ops, consts) {
                Err(f) => Err(f),
                Ok((k, o, c)) => if toks[k].tt == TokenType::RightParen {
                    Ok((k + 1, o, c))
                } else {
                    Err(Failure::ExpectedToken(toks[k]))
                },
            },
            Prefix::Unary => match parse_prec(toks, lits, j, 8, ops, consts) {
                Err(f) => Err(f),
                Ok((k, o, c)) => Ok((k, o.push(op_at(unary_op(prev.tt), toks[k].line)), c)),
            },
            Prefix::Number => if consts.len() >= 256 {
                Err(Failure::TooManyConstants(prev))
            } else {
                let line = toks[j].line;
                Ok(
                    (
                        j,
                        ops.push(op_at(Opcode::OpConstant, line)).push(
                            Operation { opcode: consts.len() as u8, line },
                        ),
                        consts.push(Value::Number(lits[j - 1])),
                    ),
                )
            },
            Prefix::Literal => Ok((j, ops.push(op_at(literal_op(prev.tt), toks[j].line)), consts)),
        }
    }
}

/// Compile the binary operators that follow a complete operand, while they
/// bind at least as tightly as `min`.
pub open spec fn infix(
    toks: Seq<Token>,
    lits: Seq<u64>,
    j: int,
    min: nat,
    ops: Seq<Operation>,
    consts: Seq<Value>,
) -> Result<Emitted, Failure>
    decreases toks.len() - j, 2int,
{
    if !(0 <= j < toks.len()) {
        Ok((j, ops, consts))
    } else {
        let t = toks[j];
        let r = rule_of(t.tt);
        if min <= level(r.precedence) && r.infix is Some {
            match parse_prec(toks, lits, j + 1, tighter(r.precedence), ops, consts) {
                Err(f) => Err(f),
                Ok((k, o, c)) => {
                    let o2 = o.push(op_at(binary_op(t.tt), toks[k].line));
                    if j < k <= toks.len() {
                        infix(toks, lits, k, min, o2, c)
                    } else {
                        Ok((k, o2, c))
                    }
                },
            }
        } else {
            Ok((j, ops, consts))
        }
    }
}

/// What compiling a whole token sequence yields: one expression, then the
/// end of file, then a return.
pub open spec fn compile_tokens(toks: Seq<Token>, lits: Seq<u64>) -> Result<
    (Seq<Operation>, Seq<Value>),
    Failure,
> {
    match parse_prec(toks, lits, 0, 1, Seq::empty(), Seq::empty()) {
        Err(f) => Err(f),
        Ok((i, o, c)) => if toks[i].tt == TokenType::EOF {
            Ok((o.push(op_at(Opcode::OpReturn, toks[i].line)), c))
        } else {
            Err(Failure::ExpectedToken(toks[i]))
        },
    }
}

/// The pool after compiling from `consts` extends it and stays within the
/// 256 entries that a one-byte index can name.
pub open spec fn pool_grows(r: Result<Emitted, Failure>, consts: Seq<Value>) -> bool {
    r matches Ok((j, o, c)) ==> {
        &&& consts.len() <= c.len() <= 256
        &&& c.subrange(0, consts.len() as int) == consts
    }
}

proof fn lemma_pool_prec(
    toks: Seq<Token>,
    lits: Seq<u64>,
    i: int,
    min: nat,
    ops: Seq<Operation>,
    consts: Seq<Value>,
)
    requires
        consts.len() <= 256,
    ensures
        pool_grows(parse_prec(toks, lits, i, min, ops, consts), consts),
    decreases toks.len() - i, 0int,
{
    assert(consts.subrange(0, consts.len() as int) =~= consts);
    if 0 <= i < toks.len() {
        if let Some(h) = rule_of(toks[i].tt).prefix {
            lemma_pool_prefix(toks, lits, i + 1, h, ops, consts);
            if let Ok((j, o, c)) = prefix(toks, lits, i + 1, h, ops, consts) {
                if i < j <= toks.len() {
                    lemma_pool_infix(toks, lits, j, min, o, c);
                    if let Ok((k, o2, c2)) = infix(toks, lits, j, min, o, c) {
                        assert(c2.subrange(0, consts.len() as int) =~= c2.subrange(
                            0,
                            c.len() as int,
                        ).subrange(0, consts.len() as int));
                    }
                }
            }
        }
    }
}

proof fn lemma_pool_prefix(
    toks: Seq<Token>,
    lits: Seq<u64>,
    j: int,
    h: Prefix,
    ops: Seq<Operation>,
    consts: Seq<Value>,
)
    requires
        consts.len() <= 256,
    ensures
        pool_grows(prefix(toks, lits, j, h, ops, consts), consts),
    decreases toks.len() - j, 1int,
{
    assert(consts.subrange(0, consts.len() as int) =~= consts);
    if 1 <= j <= toks.len() {
        match h {
            Prefix::Grouping => lemma_pool_prec(toks, lits, j, 1, ops, consts),
            Prefix::Unary => lemma_pool_prec(toks, lits, j, 8, ops, consts),
            Prefix::Number => {
                if consts.len() < 256 {
                    assert(consts.push(Value::Number(lits[j - 1])).subrange(0, consts.len() as int)
                        =~= consts);
                }
            },
            Prefix::Literal => {},
        }
    }
}

proof fn lemma_pool_infix(
    toks: Seq<Token>,
    lits: Seq<u64>,
    j: int,
    min: nat,
    ops: Seq<Operation>,
    consts: Seq<Value>,
)
    requires
        consts.len() <= 256,
    ensures
        pool_grows(infix(toks, lits, j, min, ops, consts), consts),
    decreases toks.len() - j, 2int,
{
    assert(consts.subrange(0, consts.len() as int) =~= consts);
    if 0 <= j < toks.len() {
        let r = rule_of(toks[j].tt);
        if min <= level(r.precedence) && r.infix is Some {
            lemma_pool_prec(toks, lits, j + 1, tighter(r.precedence), ops, consts);
            if let Ok((k, o, c)) = parse_prec(toks, lits, j + 1, tighter(r.precedence), ops, consts) {
                let o2 = o.push(op_at(binary_op(toks[j].tt), toks[k].line));
                if j < k <= toks.len() {
                    lemma_pool_infix(toks, lits, k, min, o2, c);
                    if let Ok((m, o3, c3)) = infix(toks, lits, k, min, o2, c) {
                        assert(c3.subrange(0, consts.len() as int) =~= c3.subrange(
                            0,
                            c.len() as int,
                        ).subrange(0, consts.len() as int));
                    }
                }
            }
        }
    }
}

/// A compiled unit holds at most 256 constants, so that every constant is
/// named by a one-byte index: a literal that would need a 257th fails the
/// compilation with `TooManyConstants` instead of wrapping around.
pub proof fn lemma_constant_pool_bounded(toks: Seq<Token>, lits: Seq<u64>)
    ensures
        compile_tokens(toks, lits) matches Ok((o, c)) ==> c.len() <= 256,
{
    lemma_pool_prec(toks, lits, 0, 1, Seq::empty(), Seq::empty());
}

/// The same source text and number values always scan and compile to the
/// same tokens, instruction log and constant pool.
pub proof fn lemma_compile_deterministic(s1: Seq<char>, s2: Seq<char>, l1: Seq<u64>, l2: Seq<u64>)
    requires
        s1 == s2,
        l1 == l2,
    ensures
        crate::scanner::tokens_of(s1) == crate::scanner::tokens_of(s2),
        crate::scanner::tokens_of(s1) matches Ok(ts) ==> compile_tokens(ts, l1) == compile_tokens(
            ts,
            l2,
        ),
{
}

/// Where the line `n` lines after position `i` begins.
pub open spec fn line_begin(s: Seq<char>, i: int, n: int) -> int
    decreases s.len() - i,
{
    if n <= 0 || i < 0 || i >= s.len() {
        if i > s.len() {
            s.len() as int
        } else {
            i
        }
    } else if s[i] == '\n' {
        line_begin(s, i + 1, n - 1)
    } else {
        line_begin(s, i + 1, n)
    }
}

/// The first line feed at or after `i`, or the end.
pub open spec fn line_end(s: Seq<char>, i: int) -> int
    decreases s.len() - i,
{
    if i < 0 || i >= s.len() || s[i] == '\n' {
        i
    } else {
        line_end(s, i + 1)
    }
}

/// The text of the (one-based) line `line`, without its line feed.
pub open spec fn line_text(s: Seq<char>, line: int) -> Seq<char> {
    let b = line_begin(s, 0, line - 1);
    s.subrange(b, line_end(s, b))
}

/// The annotation reports the token, its line's text and the message.
pub open spec fn annotated(a: Annotation, t: Token, src: Seq<char>, message: Seq<char>) -> bool {
    &&& a.token == t
    &&& a.source@ == line_text(src, t.line as int)
    &&& a.info@ == message
}

/// The error `e` reports the failure `f` against the source `src`.
pub open spec fn describes(e: PetrelError, f: Failure, src: Seq<char>) -> bool {
    match f {
        Failure::ExpectedExpression(t) => match e {
            PetrelError::SyntaxError(SyntaxError::ExpectedExpression(a)) => annotated(
                a,
                t,
                src,
                "Expected expression"@,
            ),
            _ => false,
        },
        Failure::ExpectedToken(t) => match e {
            PetrelError::SyntaxError(SyntaxError::ExpectedToken(a)) => annotated(
                a,
                t,
                src,
                "Unexpected token"@,
            ),
            _ => false,
        },
        Failure::TooManyConstants(t) => match e {
            PetrelError::TooManyConstants(u) => u == t,
            _ => false,
        },
    }
}

/// The compiler takes the source and its tokens and compiles them into the
/// bytecode of a [`VM`].
#[derive(Debug)]
pub struct Compiler {
    /// The source text
    pub source: Vec<char>,
    /// The tokens of the source
    pub tokens: Vec<Token>,
    /// Index of the current token
    pub index: usize,
    /// The virtual machine the instructions are written to
    pub vm: VM,
    /// Set once an error has been reported, to suppress cascades
    pub panic_mode: bool,
}

impl Compiler {
    /// Freshly made: nothing compiled yet.
    pub open spec fn fresh(&self) -> bool {
        &&& self.index == 0
        &&& self.vm.instructions@.len() == 0
        &&& self.vm.constants@.len() == 0
        &&& self.vm.stack@.len() == 0
        &&& self.vm.ip == 0
        &&& !self.panic_mode
    }

    /// The tokens end with the end of file, and there is one number value
    /// for each token.
    pub open spec fn well_formed_input(&self, lits: Seq<u64>) -> bool {
        &&& self.tokens@.len() > 0
        &&& self.tokens@.last().tt == TokenType::EOF
        &&& lits.len() == self.tokens@.len()
    }

    pub open spec fn inv(&self, lits: Seq<u64>) -> bool {
        &&& self.well_formed_input(lits)
        &&& self.index < self.tokens@.len()
        &&& self.vm.constants@.len() <= 256
    }

    /// `next` is `self` after compiling with outcome `r`, which the spec
    /// function gave as `res`.
    pub open spec fn outcome(
        &self,
        next: &Compiler,
        r: Result<(), PetrelError>,
        res: Result<Emitted, Failure>,
        lits: Seq<u64>,
    ) -> bool {
        &&& next.tokens == self.tokens
        &&& next.source == self.source
        &&& next.vm.stack == self.vm.stack
        &&& next.vm.ip == self.vm.ip
        &&& match res {
            Ok((j, o, c)) => {
                &&& r is Ok
                &&& next.index == j
                &&& next.vm.instructions@ == o
                &&& next.vm.constants@ == c
                &&& next.inv(lits)
            },
            Err(f) => {
                &&& next.panic_mode
                &&& match r {
                    Err(e) => describes(e, f, self.source@),
                    Ok(_) => false,
                }
            },
        }
    }

    pub fn new(source: String, tokens: Vec<Token>) -> (r: Compiler)
        ensures
            r.source@ == source@,
            r.tokens == tokens,
            r.fresh(),
    {
        let src = chars_of(source.as_str());
        Compiler { source: src, tokens, index: 0, vm: VM::new(), panic_mode: false }
    }

    /// The text of the given line of the source.
    fn line_text(&self, line: usize) -> (r: String)
        ensures
            r@ == line_text(self.source@, line as int),
    {
        let ghost s = self.source@;
        let len = self.source.len();
        let mut i: usize = 0;
        let mut n: usize = if line == 0 {
            0
        } else {
            line - 1
        };
        while n > 0 && i < len
            invariant
                i <= len,
                len == s.len(),
                s == self.source@,
                line_begin(s, i as int, n as int) == line_begin(s, 0, line - 1),
            decreases len - i,
        {
            if self.source[i] == '\n' {
                n = n - 1;
            }
            i = i + 1;
        }
        let mut e = i;
        while e < len && self.source[e] != '\n'
            invariant
                i <= e <= len,
                len == s.len(),
                s == self.source@,
                line_end(s, e as int) == line_end(s, i as int),
            decreases len - e,
        {
            e = e + 1;
        }
        string_of(&self.source.as_slice()[i..e])
    }

    /// Report an error: enter panic mode and hand the error back.
    fn report_error(&mut self, code_error: PetrelError) -> (r: PetrelError)
        ensures
            r == code_error,
            final(self).panic_mode,
            final(self).tokens == old(self).tokens,
            final(self).source == old(self).source,
            final(self).vm == old(self).vm,
            final(self).index == old(self).index,
    {
        self.panic_mode = true;
        code_error
    }

    /// The error for a token that cannot begin an expression.
    fn expected_expression(&mut self, token: Token) -> (r: PetrelError)
        ensures
            describes(r, Failure::ExpectedExpression(token), old(self).source@),
            final(self).panic_mode,
            final(self).tokens == old(self).tokens,
            final(self).source == old(self).source,
            final(self).vm == old(self).vm,
            final(self).index == old(self).index,
    {
        let a = Annotation::new("Expected expression".to_owned(), token, self.line_text(token.line));
        self.report_error(PetrelError::SyntaxError(SyntaxError::ExpectedExpression(a)))
    }

    /// The error for a token other than the one the grammar asks for.
    fn unexpected_token(&mut self, token: Token) -> (r: PetrelError)
        ensures
            describes(r, Failure::ExpectedToken(token), old(self).source@),
            final(self).panic_mode,
            final(self).tokens == old(self).tokens,
            final(self).source == old(self).source,
            final(self).vm == old(self).vm,
            final(self).index == old(self).index,
    {
        let a = Annotation::new("Unexpected token".to_owned(), token, self.line_text(token.line));
        self.report_error(PetrelError::SyntaxError(SyntaxError::ExpectedToken(a)))
    }

    /// Compile an expression of at least the given precedence.
    fn parse_precedence(&mut self, precedence: Precedence, lits: &Vec<u64>) -> (r: Result<
        (),
        PetrelError,
    >)
        requires
            old(self).inv(lits@),
        ensures
            old(self).outcome(
                final(self),
                r,
                parse_prec(
                    old(self).tokens@,
                    lits@,
                    old(self).index as int,
                    level(precedence),
                    old(self).vm.instructions@,
                    old(self).vm.constants@,
                ),
                lits@,
            ),
            r is Ok ==> final(self).index > old(self).index,
        decreases old(self).tokens@.len() - old(self).index, 0int,
    {
        // The length of a vector fits in a usize
        let _len = self.tokens.len();
        let t = self.tokens[self.index];
        let rule = t.tt.get_rule();
        match rule.prefix {
            None => Err(self.expected_expression(t)),
            Some(h) => {
                // `t` is not the end of file, which has no prefix rule
                self.index = self.index + 1;
                match self.prefix(h, lits) {
                    Ok(()) => {},
                    Err(e) => {
                        return Err(e);
                    },
                }
                self.infix(precedence, lits)
            },
        }
    }

    /// Compile the rest of an expression whose first token is the previous one.
    fn prefix(&mut self, h: Prefix, lits: &Vec<u64>) -> (r: Result<(), PetrelError>)
        requires
            old(self).inv(lits@),
            old(self).index >= 1,
            rule_of(old(self).tokens@[old(self).index - 1].tt).prefix == Some(h),
        ensures
            old(self).outcome(
                final(self),
                r,
                prefix(
                    old(self).tokens@,
                    lits@,
                    old(self).index as int,
                    h,
                    old(self).vm.instructions@,
                    old(self).vm.constants@,
                ),
                lits@,
            ),
            r is Ok ==> final(self).index >= old(self).index,
        decreases old(self).tokens@.len() - old(self).index, 1int,
    {
        // The length of a vector fits in a usize
        let _len = self.tokens.len();
        let prev = self.tokens[self.index - 1];
        match h {
            Prefix::Grouping => {
                match self.parse_precedence(Precedence::Assignment, lits) {
                    Ok(()) => {},
                    Err(e) => {
                        return Err(e);
                    },
                }
                let cur = self.tokens[self.index];
                if cur.tt == TokenType::RightParen {
                    self.index = self.index + 1;
                    Ok(())
                } else {
                    Err(self.unexpected_token(cur))
                }
            },
            Prefix::Unary => {
                match self.parse_precedence(Precedence::Unary, lits) {
                    Ok(()) => {},
                    Err(e) => {
                        return Err(e);
                    },
                }
                let op = if prev.tt == TokenType::Minus {
                    Opcode::OpNegate
                } else {
                    Opcode::OpNot
                };
                let line = self.tokens[self.index].line;
                self.vm.write_operation(op.to_byte(), line);
                Ok(())
            },
            Prefix::Number => {
                let line = self.tokens[self.index].line;
                let rf = match self.vm.write_constant(Value::Number(lits[self.index - 1])) {
                    Some(rf) => rf,
                    None => {
                        return Err(self.report_error(PetrelError::TooManyConstants(prev)));
                    },
                };
                self.vm.write_operation(Opcode::OpConstant.to_byte(), line);
                self.vm.write_operation(rf, line);
                Ok(())
            },
            Prefix::Literal => {
                let op = if prev.tt == TokenType::False {
                    Opcode::OpFalse
                } else if prev.tt == TokenType::True {
                    Opcode::OpTrue
                } else {
                    Opcode::OpNull
                };
                let line = self.tokens[self.index].line;
                self.vm.write_operation(op.to_byte(), line);
                Ok(())
            },
        }
    }

    /// Compile the binary operators that follow a complete operand.
    fn infix(&mut self, precedence: Precedence, lits: &Vec<u64>) -> (r: Result<(), PetrelError>)
        requires
            old(self).inv(lits@),
        ensures
            old(self).outcome(
                final(self),
                r,
                infix(
                    old(self).tokens@,
                    lits@,
                    old(self).index as int,
                    level(precedence),
                    old(self).vm.instructions@,
                    old(self).vm.constants@,
                ),
                lits@,
            ),
            r is Ok ==> final(self).index >= old(self).index,
        decreases old(self).tokens@.len() - old(self).index, 2int,
    {
        // The length of a vector fits in a usize
        let _len = self.tokens.len();
        let t = self.tokens[self.index];
        let rule = t.tt.get_rule();
        if precedence.level() <= rule.precedence.level() && rule.infix.is_some() {
            // `t` is not the end of file, which has no infix rule
            self.index = self.index + 1;
            let next = Precedence::from(rule.precedence.level() + 1);
            match self.parse_precedence(next, lits) {
                Ok(()) => {},
                Err(e) => {
                    return Err(e);
                },
            }
            let op = if t.tt == TokenType::Plus {
                Opcode::OpAdd
            } else if t.tt == TokenType::Minus {
                Opcode::OpSubtract
            } else if t.tt == TokenType::Star {
                Opcode::OpMultiply
            } else {
                Opcode::OpDivide
            };
            let line = self.tokens[self.index].line;
            self.vm.write_operation(op.to_byte(), line);
            self.infix(precedence, lits)
        } else {
            Ok(())
        }
    }

    /// Compile the token sequence, a single expression, into the virtual
    /// machine, followed by a return.
    pub fn compile(&mut self, lits: &Vec<u64>) -> (r: Result<(), PetrelError>)
        requires
            old(self).fresh(),
            old(self).well_formed_input(lits@),
        ensures
            final(self).tokens == old(self).tokens,
            final(self).source == old(self).source,
            match compile_tokens(old(self).tokens@, lits@) {
                Ok((o, c)) => {
                    &&& r is Ok
                    &&& c.len() <= 256
                    &&& final(self).vm.instructions@ == o
                    &&& final(self).vm.constants@ == c
                    &&& final(self).vm.stack@.len() == 0
                    &&& final(self).vm.ip == 0
                },
                Err(f) => {
                    &&& final(self).panic_mode
                    &&& match r {
                        Err(e) => describes(e, f, old(self).source@),
                        Ok(_) => false,
                    }
                },
            },
    {
        assert(self.vm.instructions@ =~= Seq::<Operation>::empty());
        assert(self.vm.constants@ =~= Seq::<Value>::empty());
        match self.parse_precedence(Precedence::Assignment, lits) {
            Ok(()) => {},
            Err(e) => {
                return Err(e);
            },
        }
        let cur = self.tokens[self.index];
        if cur.tt != TokenType::EOF {
            return Err(self.unexpected_token(cur));
        }
        self.vm.write_operation(Opcode::OpReturn.to_byte(), cur.line);
        Ok(())
    }
}

} // verus!
