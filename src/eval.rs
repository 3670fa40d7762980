//! Arithmetic expressions as trees, the postfix code that evaluates them, and
//! what the virtual machine does with that code.
//!
//! The machine hands arithmetic to its caller, so here arithmetic is a
//! parameter: `f` combines two numbers, `g` negates one.
use vstd::prelude::*;

use crate::compiler::{compile_tokens, infix, level, parse_prec, rule_of, Emitted, Failure};
use crate::token::{Token, TokenType};
use crate::vm::{arith_of, byte_of, decode, ArithOp, MachineState, Opcode, Operation, Step, Value};

verus! {

/// An arithmetic expression: a number, a parenthesised expression, a
/// negation or a binary operation.
pub enum Expr {
    Num(u64),
    Group(Box<Expr>),
    Neg(Box<Expr>),
    Bin(ArithOp, Box<Expr>, Box<Expr>),
}

/// The value of an expression, children first.
pub open spec fn eval(e: Expr, f: spec_fn(ArithOp, u64, u64) -> u64, g: spec_fn(u64) -> u64) -> u64
    decreases e,
{
    match e {
        Expr::Num(x) => x,
        Expr::Group(a) => eval(*a, f, g),
        Expr::Neg(a) => g(eval(*a, f, g)),
        Expr::Bin(op, a, b) => f(op, eval(*a, f, g), eval(*b, f, g)),
    }
}

/// The number of instructions that evaluating an expression executes.
pub open spec fn size(e: Expr) -> nat
    decreases e,
{
    match e {
        Expr::Num(_) => 1,
        Expr::Group(a) => size(*a),
        Expr::Neg(a) => size(*a) + 1,
        Expr::Bin(_, a, b) => size(*a) + size(*b) + 1,
    }
}

/// The number of literals in an expression.
pub open spec fn literals(e: Expr) -> nat
    decreases e,
{
    match e {
        Expr::Num(_) => 1,
        Expr::Group(a) => literals(*a),
        Expr::Neg(a) => literals(*a),
        Expr::Bin(_, a, b) => literals(*a) + literals(*b),
    }
}

/// The opcode of an arithmetic operator.
pub open spec fn opcode_of(op: ArithOp) -> Opcode {
    match op {
        ArithOp::Add => Opcode::OpAdd,
        ArithOp::Subtract => Opcode::OpSubtract,
        ArithOp::Multiply => Opcode::OpMultiply,
        ArithOp::Divide => Opcode::OpDivide,
    }
}

pub open spec fn instr(op: Opcode, line: usize) -> Operation {
    Operation { opcode: byte_of(op), line }
}

/// Append the postfix code of `e` to `ops`, and its literals to the pool.
pub open spec fn emit(e: Expr, ops: Seq<Operation>, consts: Seq<Value>, line: usize) -> (
    Seq<Operation>,
    Seq<Value>,
)
    decreases e,
{
    match e {
        Expr::Num(x) => (
            ops.push(instr(Opcode::OpConstant, line)).push(
                Operation { opcode: consts.len() as u8, line },
            ),
            consts.push(Value::Number(x)),
        ),
        Expr::Group(a) => emit(*a, ops, consts, line),
        Expr::Neg(a) => {
            let (o, c) = emit(*a, ops, consts, line);
            (o.push(instr(Opcode::OpNegate, line)), c)
        },
        Expr::Bin(op, a, b) => {
            let (o1, c1) = emit(*a, ops, consts, line);
            let (o2, c2) = emit(*b, o1, c1, line);
            (o2.push(instr(opcode_of(op), line)), c2)
        },
    }
}

/// The machine after a successful step that returned `st`, with the caller
/// having pushed the result of any arithmetic it asked for.
pub open spec fn after(
    m: MachineState,
    st: Step,
    f: spec_fn(ArithOp, u64, u64) -> u64,
    g: spec_fn(u64) -> u64,
) -> MachineState {
    MachineState {
        stack: match st {
            Step::Binary(op, a, b) => m.step_stack().push(Value::Number(f(op, a, b))),
            Step::Negate(x) => m.step_stack().push(Value::Number(g(x))),
            _ => m.step_stack(),
        },
        ip: m.step_ip(),
        ..m
    }
}

/// The stack when the machine returns within `fuel` steps, the caller doing
/// the arithmetic with `f` and `g`.
pub open spec fn run(
    m: MachineState,
    f: spec_fn(ArithOp, u64, u64) -> u64,
    g: spec_fn(u64) -> u64,
    fuel: nat,
) -> Option<Seq<Value>>
    decreases fuel,
{
    if fuel == 0 {
        None
    } else {
        match m.step_result() {
            Ok(Step::Halt) => Some(m.stack),
            Ok(st) => run(after(m, st, f, g), f, g, (fuel - 1) as nat),
            Err(_) => None,
        }
    }
}

proof fn lemma_emit_extends(e: Expr, ops: Seq<Operation>, consts: Seq<Value>, line: usize)
    ensures
        ({
            let (o, c) = emit(e, ops, consts, line);
            &&& o.len() >= ops.len()
            &&& o.subrange(0, ops.len() as int) == ops
            &&& c.len() == consts.len() + literals(e)
            &&& c.subrange(0, consts.len() as int) == consts
        }),
    decreases e,
{
    match e {
        Expr::Num(x) => {
            let (o, c) = emit(e, ops, consts, line);
            assert(o.subrange(0, ops.len() as int) =~= ops);
            assert(c.subrange(0, consts.len() as int) =~= consts);
        },
        Expr::Group(a) => {
            lemma_emit_extends(*a, ops, consts, line);
        },
        Expr::Neg(a) => {
            lemma_emit_extends(*a, ops, consts, line);
            let (o1, c1) = emit(*a, ops, consts, line);
            let (o, c) = emit(e, ops, consts, line);
            assert(o.subrange(0, ops.len() as int) =~= o1.subrange(0, ops.len() as int));
        },
        Expr::Bin(op, a, b) => {
            lemma_emit_extends(*a, ops, consts, line);
            let (o1, c1) = emit(*a, ops, consts, line);
            lemma_emit_extends(*b, o1, c1, line);
            let (o2, c2) = emit(*b, o1, c1, line);
            let (o, c) = emit(e, ops, consts, line);
            assert(o.subrange(0, ops.len() as int) =~= o1.subrange(0, ops.len() as int));
            assert(c.subrange(0, consts.len() as int) =~= c1.subrange(0, consts.len() as int));
        },
    }
}

/// `ins` and `pool` begin with `o` and `c`.
pub open spec fn begins_with(ins: Seq<Operation>, pool: Seq<Value>, o: Seq<Operation>, c: Seq<Value>) -> bool {
    &&& o.len() <= ins.len()
    &&& forall|i: int| 0 <= i < o.len() ==> ins[i] == o[i]
    &&& c.len() <= pool.len()
    &&& forall|i: int| 0 <= i < c.len() ==> pool[i] == c[i]
}

proof fn lemma_run_emit(
    e: Expr,
    ops: Seq<Operation>,
    consts: Seq<Value>,
    line: usize,
    ins: Seq<Operation>,
    pool: Seq<Value>,
    stack: Seq<Value>,
    f: spec_fn(ArithOp, u64, u64) -> u64,
    g: spec_fn(u64) -> u64,
    fuel: nat,
)
    requires
        begins_with(ins, pool, emit(e, ops, consts, line).0, emit(e, ops, consts, line).1),
        emit(e, ops, consts, line).1.len() <= 256,
        fuel >= size(e),
    ensures
        run(MachineState { ins, consts: pool, stack, ip: ops.len() as int }, f, g, fuel) == run(
            MachineState {
                ins,
                consts: pool,
                stack: stack.push(Value::Number(eval(e, f, g))),
                ip: emit(e, ops, consts, line).0.len() as int,
            },
            f,
            g,
            (fuel - size(e)) as nat,
        ),
    decreases e,
{
    lemma_emit_extends(e, ops, consts, line);
    let m0 = MachineState { ins, consts: pool, stack, ip: ops.len() as int };
    match e {
        Expr::Num(x) => {
            let (o, c) = emit(e, ops, consts, line);
            assert(ins[ops.len() as int] == o[ops.len() as int]);
            assert(ins[ops.len() + 1int] == o[ops.len() + 1int]);
            assert(pool[consts.len() as int] == c[consts.len() as int]);
            assert(m0.step_result() == Ok::<Step, crate::error::VMError>(Step::Continue));
            assert(after(m0, Step::Continue, f, g).stack =~= stack.push(Value::Number(x)));
        },
        Expr::Group(a) => {
            lemma_run_emit(*a, ops, consts, line, ins, pool, stack, f, g, fuel);
        },
        Expr::Neg(a) => {
            let (o1, c1) = emit(*a, ops, consts, line);
            let (o, c) = emit(e, ops, consts, line);
            lemma_emit_extends(*a, ops, consts, line);
            assert forall|i: int| 0 <= i < o1.len() implies ins[i] == o1[i] by {
                assert(o[i] == o1[i]);
            }
            lemma_run_emit(*a, ops, consts, line, ins, pool, stack, f, g, fuel);
            let va = eval(*a, f, g);
            let m1 = MachineState {
                ins,
                consts: pool,
                stack: stack.push(Value::Number(va)),
                ip: o1.len() as int,
            };
            assert(ins[o1.len() as int] == o[o1.len() as int]);
            assert(m1.step_result() == Ok::<Step, crate::error::VMError>(Step::Negate(va)));
            assert(after(m1, Step::Negate(va), f, g).stack =~= stack.push(
                Value::Number(eval(e, f, g)),
            ));
        },
        Expr::Bin(op, a, b) => {
            let (o1, c1) = emit(*a, ops, consts, line);
            let (o2, c2) = emit(*b, o1, c1, line);
            let (o, c) = emit(e, ops, consts, line);
            lemma_emit_extends(*a, ops, consts, line);
            lemma_emit_extends(*b, o1, c1, line);
            assert forall|i: int| 0 <= i < o2.len() implies ins[i] == o2[i] by {
                assert(o[i] == o2[i]);
            }
            assert forall|i: int| 0 <= i < o1.len() implies ins[i] == o1[i] by {
                assert(o2.subrange(0, o1.len() as int)[i] == o2[i]);
            }
            assert forall|i: int| 0 <= i < c1.len() implies pool[i] == c1[i] by {
                assert(c2.subrange(0, c1.len() as int)[i] == c2[i]);
            }
            lemma_run_emit(*a, ops, consts, line, ins, pool, stack, f, g, fuel);
            let va = eval(*a, f, g);
            let vb = eval(*b, f, g);
            let s1 = stack.push(Value::Number(va));
            lemma_run_emit(*b, o1, c1, line, ins, pool, s1, f, g, (fuel - size(*a)) as nat);
            let s2 = s1.push(Value::Number(vb));
            let m2 = MachineState { ins, consts: pool, stack: s2, ip: o2.len() as int };
            assert(ins[o2.len() as int] == o[o2.len() as int]);
            assert(arith_of(opcode_of(op)) == Some(op));
            assert(decode(byte_of(opcode_of(op))) == Some(opcode_of(op)));
            assert(m2.step_result() == Ok::<Step, crate::error::VMError>(Step::Binary(op, va, vb)));
            assert(s2.subrange(0, s2.len() - 2) =~= stack);
            assert(after(m2, Step::Binary(op, va, vb), f, g).stack =~= stack.push(
                Value::Number(eval(e, f, g)),
            ));
        },
    }
}

/// The postfix code of an expression with at most 256 literals, followed by
/// a return, leaves the expression's value on top of the stack it started
/// with: each operator is applied to the values of its operands, the left
/// operand first, whatever the arithmetic `f` and `g` that the caller does.
pub proof fn lemma_postfix_code_evaluates(
    e: Expr,
    line: usize,
    stack: Seq<Value>,
    f: spec_fn(ArithOp, u64, u64) -> u64,
    g: spec_fn(u64) -> u64,
)
    requires
        literals(e) <= 256,
    ensures
        ({
            let (o, c) = emit(e, Seq::empty(), Seq::empty(), line);
            run(
                MachineState {
                    ins: o.push(instr(Opcode::OpReturn, line)),
                    consts: c,
                    stack,
                    ip: 0,
                },
                f,
                g,
                size(e) + 1,
            ) == Some(stack.push(Value::Number(eval(e, f, g))))
        }),
{
    let (o, c) = emit(e, Seq::empty(), Seq::empty(), line);
    let ins = o.push(instr(Opcode::OpReturn, line));
    lemma_emit_extends(e, Seq::empty(), Seq::empty(), line);
    lemma_run_emit(e, Seq::empty(), Seq::empty(), line, ins, c, stack, f, g, size(e) + 1);
    let m = MachineState {
        ins,
        consts: c,
        stack: stack.push(Value::Number(eval(e, f, g))),
        ip: o.len() as int,
    };
    assert(m.step_result() == Ok::<Step, crate::error::VMError>(Step::Halt));
}


/// The token of an arithmetic operator.
pub open spec fn op_token(op: ArithOp) -> TokenType {
    match op {
        ArithOp::Add => TokenType::Plus,
        ArithOp::Subtract => TokenType::Minus,
        ArithOp::Multiply => TokenType::Star,
        ArithOp::Divide => TokenType::Slash,
    }
}

/// The precedence ordinal of an operator: terms bind looser than factors.
pub open spec fn op_level(op: ArithOp) -> nat {
    match op {
        ArithOp::Add | ArithOp::Subtract => 6,
        ArithOp::Multiply | ArithOp::Divide => 7,
    }
}

/// How tightly the top of an expression binds.
pub open spec fn prec(e: Expr) -> nat {
    match e {
        Expr::Num(_) | Expr::Group(_) => 10,
        Expr::Neg(_) => 8,
        Expr::Bin(op, _, _) => op_level(op),
    }
}

/// The tree is the one that the usual precedence gives to its text: the
/// operand of a negation binds at least as tightly as negation, the left
/// operand of an operator at least as tightly as the operator, and the right
/// operand more tightly (operators associate to the left).
pub open spec fn well_nested(e: Expr) -> bool
    decreases e,
{
    match e {
        Expr::Num(_) => true,
        Expr::Group(a) => well_nested(*a),
        Expr::Neg(a) => prec(*a) >= 8 && well_nested(*a),
        Expr::Bin(op, a, b) => prec(*a) >= op_level(op) && prec(*b) > op_level(op) && well_nested(
            *a,
        ) && well_nested(*b),
    }
}

/// The text of an expression as token kinds, each with its number value (0
/// where it has none).
pub open spec fn render(e: Expr) -> Seq<(TokenType, u64)>
    decreases e,
{
    match e {
        Expr::Num(x) => seq![(TokenType::Number, x)],
        Expr::Group(a) => seq![(TokenType::LeftParen, 0u64)] + render(*a) + seq![
            (TokenType::RightParen, 0u64),
        ],
        Expr::Neg(a) => seq![(TokenType::Minus, 0u64)] + render(*a),
        Expr::Bin(op, a, b) => render(*a) + seq![(op_token(op), 0u64)] + render(*b),
    }
}

pub open spec fn nodes(e: Expr) -> nat
    decreases e,
{
    match e {
        Expr::Num(_) => 1,
        Expr::Group(a) => nodes(*a) + 1,
        Expr::Neg(a) => nodes(*a) + 1,
        Expr::Bin(_, a, b) => nodes(*a) + nodes(*b) + 1,
    }
}

/// The leftmost operand that is not itself a binary operation.
pub open spec fn bottom(e: Expr) -> Expr
    decreases e,
{
    match e {
        Expr::Bin(_, a, _) => bottom(*a),
        _ => e,
    }
}

/// The token ends an expression parsed at precedence ordinal `m`.
pub open spec fn stops(t: TokenType, m: nat) -> bool {
    !(m <= level(rule_of(t).precedence) && rule_of(t).infix is Some)
}

/// From `i` on, the tokens spell `r`, and a token follows.
pub open spec fn spells(toks: Seq<Token>, lits: Seq<u64>, i: int, r: Seq<(TokenType, u64)>) -> bool {
    &&& 0 <= i
    &&& i + r.len() < toks.len()
    &&& forall|k: int|
        0 <= k < r.len() ==> toks[i + k].tt == (#[trigger] r[k]).0 && (r[k].0 == TokenType::Number
            ==> lits[i + k] == r[k].1)
}

pub open spec fn on_line(toks: Seq<Token>, line: usize) -> bool {
    forall|k: int| 0 <= k < toks.len() ==> toks[k].line == line
}

proof fn lemma_bottom(e: Expr)
    ensures
        bottom(e) !is Bin,
        nodes(bottom(e)) <= nodes(e),
        render(bottom(e)).len() <= render(e).len(),
        forall|k: int| 0 <= k < render(bottom(e)).len() ==> render(e)[k] == render(bottom(e))[k],
        e is Bin ==> render(bottom(e)).len() < render(e).len() && stops(
            render(e)[render(bottom(e)).len() as int].0,
            8,
        ),
        well_nested(e) ==> well_nested(bottom(e)),
        literals(bottom(e)) <= literals(e),
    decreases e,
{
    if let Expr::Bin(op, a, b) = e {
        lemma_bottom(*a);
        let ra = render(*a);
        let re = render(e);
        assert(re == ra + seq![(op_token(op), 0u64)] + render(*b));
        assert forall|k: int| 0 <= k < render(bottom(e)).len() implies re[k] == render(bottom(e))[k] by {
            assert(re[k] == ra[k]);
        }
        if *a is Bin {
            assert(re[render(bottom(e)).len() as int] == ra[render(bottom(e)).len() as int]);
        } else {
            assert(re[ra.len() as int] == (op_token(op), 0u64));
        }
    }
}

proof fn lemma_spells_parts(
    toks: Seq<Token>,
    lits: Seq<u64>,
    i: int,
    r1: Seq<(TokenType, u64)>,
    r2: Seq<(TokenType, u64)>,
)
    requires
        spells(toks, lits, i, r1 + r2),
    ensures
        spells(toks, lits, i, r1),
        spells(toks, lits, i + r1.len(), r2),
{
    assert forall|k: int| 0 <= k < r1.len() implies toks[i + k].tt == r1[k].0 && (r1[k].0
        == TokenType::Number ==> lits[i + k] == r1[k].1) by {
        assert((r1 + r2)[k] == r1[k]);
    }
    assert forall|k: int| 0 <= k < r2.len() implies toks[i + r1.len() + k].tt == r2[k].0 && (r2[k].0
        == TokenType::Number ==> lits[i + r1.len() + k] == r2[k].1) by {
        assert((r1 + r2)[r1.len() + k] == r2[k]);
    }
}

/// Parsing an expression that is not a binary operation, then going on with
/// the operators after it.
proof fn lemma_primary(
    e: Expr,
    toks: Seq<Token>,
    lits: Seq<u64>,
    i: int,
    m: nat,
    ops: Seq<Operation>,
    consts: Seq<Value>,
    line: usize,
)
    requires
        e !is Bin,
        well_nested(e),
        spells(toks, lits, i, render(e)),
        on_line(toks, line),
        e is Neg ==> stops(toks[i + render(e).len()].tt, 8),
        consts.len() + literals(e) <= 256,
    ensures
        parse_prec(toks, lits, i, m, ops, consts) == infix(
            toks,
            lits,
            i + render(e).len(),
            m,
            emit(e, ops, consts, line).0,
            emit(e, ops, consts, line).1,
        ),
    decreases nodes(e), 0int,
{
    match e {
        Expr::Num(x) => {
            assert(render(e)[0] == (TokenType::Number, x));
        },
        Expr::Group(a) => {
            let ra = render(*a);
            assert(render(e) == seq![(TokenType::LeftParen, 0u64)] + (ra + seq![
                (TokenType::RightParen, 0u64),
            ]));
            lemma_spells_parts(
                toks,
                lits,
                i,
                seq![(TokenType::LeftParen, 0u64)],
                ra + seq![(TokenType::RightParen, 0u64)],
            );
            lemma_spells_parts(toks, lits, i + 1, ra, seq![(TokenType::RightParen, 0u64)]);
            assert(seq![(TokenType::LeftParen, 0u64)][0] == (TokenType::LeftParen, 0u64));
            assert(seq![(TokenType::RightParen, 0u64)][0] == (TokenType::RightParen, 0u64));
            lemma_parse(*a, toks, lits, i + 1, 1, ops, consts, line);
        },
        Expr::Neg(a) => {
            let ra = render(*a);
            lemma_spells_parts(toks, lits, i, seq![(TokenType::Minus, 0u64)], ra);
            assert(seq![(TokenType::Minus, 0u64)][0] == (TokenType::Minus, 0u64));
            lemma_parse(*a, toks, lits, i + 1, 8, ops, consts, line);
        },
        Expr::Bin(..) => {},
    }
}

/// Going on with the operators after the leftmost operand reaches the end of
/// the expression with its code.
proof fn lemma_spine(
    e: Expr,
    toks: Seq<Token>,
    lits: Seq<u64>,
    i: int,
    m: nat,
    ops: Seq<Operation>,
    consts: Seq<Value>,
    line: usize,
)
    requires
        well_nested(e),
        spells(toks, lits, i, render(e)),
        on_line(toks, line),
        m <= prec(e),
        e is Bin ==> stops(toks[i + render(e).len()].tt, prec(e) + 1),
        consts.len() + literals(e) <= 256,
    ensures
        infix(
            toks,
            lits,
            i + render(bottom(e)).len(),
            m,
            emit(bottom(e), ops, consts, line).0,
            emit(bottom(e), ops, consts, line).1,
        ) == infix(
            toks,
            lits,
            i + render(e).len(),
            m,
            emit(e, ops, consts, line).0,
            emit(e, ops, consts, line).1,
        ),
    decreases nodes(e), 1int,
{
    if let Expr::Bin(op, a, b) = e {
        let ra = render(*a);
        let rb = render(*b);
        assert(render(e) == ra + (seq![(op_token(op), 0u64)] + rb));
        lemma_spells_parts(toks, lits, i, ra, seq![(op_token(op), 0u64)] + rb);
        lemma_spells_parts(toks, lits, i + ra.len(), seq![(op_token(op), 0u64)], rb);
        let j = i + ra.len();
        assert(seq![(op_token(op), 0u64)][0] == (op_token(op), 0u64));
        lemma_spine(*a, toks, lits, i, m, ops, consts, line);
        lemma_emit_extends(*a, ops, consts, line);
        let (o1, c1) = emit(*a, ops, consts, line);
        lemma_parse(*b, toks, lits, j + 1, op_level(op) + 1, o1, c1, line);
        assert(toks[j + 1 + rb.len()].line == line);
    }
}

/// Parsing an expression at precedence ordinal `m` reads its whole text and
/// yields its code, when the token after it ends it.
proof fn lemma_parse(
    e: Expr,
    toks: Seq<Token>,
    lits: Seq<u64>,
    i: int,
    m: nat,
    ops: Seq<Operation>,
    consts: Seq<Value>,
    line: usize,
)
    requires
        well_nested(e),
        1 <= m <= prec(e),
        spells(toks, lits, i, render(e)),
        on_line(toks, line),
        stops(toks[i + render(e).len()].tt, m),
        consts.len() + literals(e) <= 256,
    ensures
        parse_prec(toks, lits, i, m, ops, consts) == Ok::<Emitted, Failure>(
            (i + render(e).len(), emit(e, ops, consts, line).0, emit(e, ops, consts, line).1),
        ),
    decreases nodes(e), 2int,
{
    let b = bottom(e);
    lemma_bottom(e);
    assert(spells(toks, lits, i, render(b))) by {
        assert forall|k: int| 0 <= k < render(b).len() implies toks[i + k].tt == render(b)[k].0 && (
        render(b)[k].0 == TokenType::Number ==> lits[i + k] == render(b)[k].1) by {
            assert(render(e)[k] == render(b)[k]);
        }
    }
    if e is Bin {
        assert(toks[i + render(b).len()].tt == render(e)[render(b).len() as int].0);
    }
    lemma_primary(b, toks, lits, i, m, ops, consts, line);
    lemma_spine(e, toks, lits, i, m, ops, consts, line);
}

/// An arithmetic expression written with the usual precedence, then the end
/// of file, compiles to the postfix code of its tree, then a return.
pub proof fn lemma_compiles_to_postfix(e: Expr, toks: Seq<Token>, lits: Seq<u64>, line: usize)
    requires
        well_nested(e),
        literals(e) <= 256,
        toks.len() == render(e).len() + 1,
        spells(toks, lits, 0, render(e)),
        toks[render(e).len() as int].tt == TokenType::EOF,
        on_line(toks, line),
    ensures
        compile_tokens(toks, lits) == Ok::<(Seq<Operation>, Seq<Value>), Failure>(
            (
                emit(e, Seq::empty(), Seq::empty(), line).0.push(instr(Opcode::OpReturn, line)),
                emit(e, Seq::empty(), Seq::empty(), line).1,
            ),
        ),
{
    lemma_parse(e, toks, lits, 0, 1, Seq::empty(), Seq::empty(), line);
}

/// For every arithmetic expression built from numbers, `+ - * /`, unary `-`
/// and parentheses, and written with the usual precedence, the compiled code
/// run on the machine leaves the value of the expression's tree on the
/// stack: each operator applied to the values of its operands, left operand
/// first, with the arithmetic `f` and `g` that the caller performs.
pub proof fn lemma_arithmetic_evaluates(
    e: Expr,
    toks: Seq<Token>,
    lits: Seq<u64>,
    line: usize,
    stack: Seq<Value>,
    f: spec_fn(ArithOp, u64, u64) -> u64,
    g: spec_fn(u64) -> u64,
)
    requires
        well_nested(e),
        literals(e) <= 256,
        toks.len() == render(e).len() + 1,
        spells(toks, lits, 0, render(e)),
        toks[render(e).len() as int].tt == TokenType::EOF,
        on_line(toks, line),
    ensures
        match compile_tokens(toks, lits) {
            Ok((o, c)) => run(MachineState { ins: o, consts: c, stack, ip: 0 }, f, g, size(e) + 1)
                == Some(stack.push(Value::Number(eval(e, f, g)))),
            Err(_) => false,
        },
{
    lemma_compiles_to_postfix(e, toks, lits, line);
    lemma_postfix_code_evaluates(e, line, stack, f, g);
}

} // verus!
