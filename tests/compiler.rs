use petrel::compiler::{Compiler, Precedence};
use petrel::error::{Fault, PetrelError, SyntaxError, VMError};
use petrel::scanner::Scanner;
use petrel::token::TokenType;
use petrel::vm::{ArithOp, Opcode, Step, Value, VM};

/// Runs the machine to its return, doing the arithmetic it hands out.
fn run(vm: &mut VM) -> Result<Value, VMError> {
    loop {
        match vm.step()? {
            Step::Halt => return Ok(vm.stack.last().copied().unwrap_or(Value::Null)),
            Step::Continue => {}
            Step::Binary(op, a, b) => {
                let (x, y) = (f64::from_bits(a), f64::from_bits(b));
                let r = match op {
                    ArithOp::Add => x + y,
                    ArithOp::Subtract => x - y,
                    ArithOp::Multiply => x * y,
                    ArithOp::Divide => x / y,
                };
                vm.stack.push(Value::Number(r.to_bits()));
            }
            Step::Negate(a) => vm.stack.push(Value::Number((-f64::from_bits(a)).to_bits())),
        }
    }
}

fn compile(src: &str) -> Result<Compiler, PetrelError> {
    let mut scanner = Scanner::new(src.to_string());
    let tks = scanner.scan()?;
    let lits: Vec<u64> = tks
        .iter()
        .map(|t| match t.tt {
            TokenType::Number => t.contained_string(&scanner).parse::<f64>().unwrap().to_bits(),
            _ => 0,
        })
        .collect();
    let mut compiler = Compiler::new(src.to_string(), tks);
    compiler.compile(&lits)?;
    Ok(compiler)
}

fn eval(src: &str) -> Value {
    let mut compiler = compile(src).expect("compiles");
    run(&mut compiler.vm).expect("VM failed to run")
}

fn number(src: &str) -> f64 {
    match eval(src) {
        Value::Number(bits) => f64::from_bits(bits),
        v => panic!("not a number: {:?}", v),
    }
}

#[test]
fn compiler_basic_arithmatic() {
    assert_eq!(number("1 + 2 * 3 - 4 / 2"), 5.0);
}

#[test]
fn division_binds_tighter_than_addition() {
    assert_eq!(number("2.5 + 7.5 / 2.0"), 6.25);
}

#[test]
fn not_of_literals() {
    assert_eq!(eval("!true"), Value::Bool(false));
    assert_eq!(eval("!false"), Value::Bool(true));
    assert_eq!(eval("!null"), Value::Null);
    assert_eq!(eval("true"), Value::Bool(true));
    assert_eq!(eval("null"), Value::Null);
}

#[test]
fn arithmetic_follows_precedence_and_associativity() {
    assert_eq!(number("1 - 2 - 3"), -4.0);
    assert_eq!(number("8 / 4 / 2"), 1.0);
    assert_eq!(number("2 * (3 + 4)"), 14.0);
    assert_eq!(number("-1 + 2"), 1.0);
    assert_eq!(number("--3"), 3.0);
    assert_eq!(number("-(2 - 5) * 2"), 6.0);
    assert_eq!(number("((7))"), 7.0);
    assert_eq!(number("1 / 0"), f64::INFINITY);
}

#[test]
fn compiling_is_deterministic() {
    let a = compile("3 * (1 - 2) / 4").unwrap();
    let b = compile("3 * (1 - 2) / 4").unwrap();
    assert_eq!(a.vm.instructions, b.vm.instructions);
    assert_eq!(a.vm.constants, b.vm.constants);
    assert_eq!(number("3 * (1 - 2) / 4"), number("3 * (1 - 2) / 4"));
}

#[test]
fn emitted_code_for_a_sum() {
    let c = compile("1 + 2").unwrap();
    let ops: Vec<u8> = c.vm.instructions.iter().map(|o| o.opcode).collect();
    let constant: u8 = Opcode::OpConstant.into();
    assert_eq!(ops, vec![constant, 0, constant, 1, Opcode::OpAdd.to_byte(), Opcode::OpReturn.to_byte()]);
    assert_eq!(
        c.vm.constants,
        vec![Value::Number(1.0f64.to_bits()), Value::Number(2.0f64.to_bits())]
    );
}

#[test]
fn constant_pool_holds_256_literals() {
    let src = vec!["1"; 256].join(" + ");
    let c = compile(&src).unwrap();
    assert_eq!(c.vm.constants.len(), 256);
    let src = vec!["1"; 257].join(" + ");
    match compile(&src) {
        Err(PetrelError::TooManyConstants(t)) => assert_eq!(t.tt, TokenType::Number),
        other => panic!("expected too many constants, got {:?}", other.map(|_| ())),
    }
}

#[test]
fn distinct_literals_never_alias() {
    let terms: Vec<String> = (0..256).map(|i| i.to_string()).collect();
    assert_eq!(number(&terms.join(" + ")), 32640.0);
    let terms: Vec<String> = (0..257).map(|i| i.to_string()).collect();
    match compile(&terms.join(" + ")) {
        Err(PetrelError::TooManyConstants(t)) => assert_eq!(t.tt, TokenType::Number),
        other => panic!("expected too many constants, got {:?}", other.map(|_| ())),
    }
}

#[test]
fn syntax_error_is_reported() {
    match compile("1 +") {
        Err(PetrelError::SyntaxError(SyntaxError::ExpectedExpression(a))) => {
            assert_eq!(a.token.tt, TokenType::EOF);
            assert_eq!(a.source, "1 +");
            assert_eq!(a.info, "Expected expression");
        }
        other => panic!("expected a syntax error, got {:?}", other.map(|_| ())),
    }
}

#[test]
fn missing_paren_is_reported() {
    match compile("(1 + 2\n") {
        Err(PetrelError::SyntaxError(SyntaxError::ExpectedToken(a))) => {
            assert_eq!(a.token.tt, TokenType::NL);
            assert_eq!(a.info, "Unexpected token");
        }
        other => panic!("expected a syntax error, got {:?}", other.map(|_| ())),
    }
}

#[test]
fn annotation_holds_the_tokens_line() {
    let src = "1 +\n\n2 )";
    let mut scanner = Scanner::new(src.to_string());
    let tks: Vec<_> = scanner.scan().unwrap().into_iter().filter(|t| t.tt != TokenType::NL).collect();
    let lits = vec![1.0f64.to_bits(); tks.len()];
    let mut compiler = Compiler::new(src.to_string(), tks);
    match compiler.compile(&lits) {
        Err(PetrelError::SyntaxError(SyntaxError::ExpectedToken(a))) => {
            assert_eq!(a.token.tt, TokenType::RightParen);
            assert_eq!(a.source, "2 )");
        }
        other => panic!("expected a syntax error, got {:?}", other),
    }
    assert!(compiler.panic_mode);
}

#[test]
fn runtime_type_errors() {
    let mut c = compile("-true").unwrap();
    assert_eq!(
        run(&mut c.vm),
        Err(VMError::Runtime(petrel::error::Context { line: 1, fault: Fault::NegateNonNumber }))
    );
    let mut c = compile("1 + true").unwrap();
    assert!(matches!(
        run(&mut c.vm),
        Err(VMError::Runtime(petrel::error::Context { fault: Fault::OperandsMustBeNumbers, .. }))
    ));
    let mut c = compile("!1").unwrap();
    assert!(matches!(
        run(&mut c.vm),
        Err(VMError::Runtime(petrel::error::Context { fault: Fault::NotNonBoolean, .. }))
    ));
}

#[test]
fn precedence_levels_convert() {
    assert_eq!(Precedence::from(6), Precedence::Term);
    assert_eq!(Precedence::from(7), Precedence::Factor);
    assert_eq!(Precedence::from(42), Precedence::Primary);
    assert_eq!(Precedence::Unary.level(), 8);
    assert_eq!(Precedence::from(0), Precedence::Lowest);
}

#[test]
fn parse_rules() {
    let r = TokenType::Star.get_rule();
    assert!(r.prefix.is_none());
    assert!(r.infix.is_some());
    assert_eq!(r.precedence, Precedence::Factor);
    let r = TokenType::Identifier.get_rule();
    assert!(r.prefix.is_none() && r.infix.is_none());
    assert_eq!(r.precedence, Precedence::Lowest);
}
