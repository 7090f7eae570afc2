use monkey_compiler::ast::{Expression, Infix, Program, Statement};
use monkey_compiler::code::{
    Instruction, OP_ADD, OP_CONSTANT, OP_DIV, OP_FALSE, OP_MUL, OP_POP, OP_SUB, OP_TRUE,
};
use monkey_compiler::compiler::{Bytecode, CompileError, Compiler};
use monkey_compiler::object::Object;

fn lit(n: i64) -> Expression {
    Expression::IntegerLiteral(n)
}

fn infix(op: Infix, l: Expression, r: Expression) -> Expression {
    Expression::Infix(op, Box::new(l), Box::new(r))
}

fn program(exprs: Vec<Expression>) -> Program {
    Program { statements: exprs.into_iter().map(Statement::Expression).collect() }
}

fn compile(p: &Program) -> (Result<(), CompileError>, Bytecode) {
    let mut c = Compiler::new();
    let r = c.compile(p);
    (r, c.bytecode())
}

fn values(b: &Bytecode) -> Vec<Object> {
    b.constants.iter().map(|c| (**c).clone()).collect()
}

#[test]
fn integer_addition_end_to_end() {
    let (r, b) = compile(&program(vec![infix(Infix::Plus, lit(1), lit(2))]));
    assert_eq!(r, Ok(()));
    assert_eq!(values(&b), vec![Object::Integer(1), Object::Integer(2)]);
    assert_eq!(b.instructions, vec![OP_CONSTANT, 0, 0, OP_CONSTANT, 0, 1, OP_ADD, OP_POP]);
}

#[test]
fn string_times_integer_end_to_end() {
    let e = infix(Infix::Asterisk, Expression::StringLiteral("a".to_string()), lit(2));
    let (r, b) = compile(&program(vec![e]));
    assert_eq!(r, Ok(()));
    assert_eq!(values(&b), vec![Object::String("a".to_string()), Object::Integer(2)]);
    assert_eq!(b.instructions, vec![OP_CONSTANT, 0, 0, OP_CONSTANT, 0, 1, OP_MUL, OP_POP]);
}

#[test]
fn true_end_to_end() {
    let (r, b) = compile(&program(vec![Expression::Boolean(true)]));
    assert_eq!(r, Ok(()));
    assert!(b.constants.is_empty());
    assert_eq!(b.instructions, vec![OP_TRUE, OP_POP]);
}

#[test]
fn false_adds_no_constant() {
    let (r, b) = compile(&program(vec![Expression::Boolean(false)]));
    assert_eq!(r, Ok(()));
    assert!(b.constants.is_empty());
    assert_eq!(b.instructions, vec![OP_FALSE, OP_POP]);
}

#[test]
fn integer_statement_loads_and_pops() {
    for n in [0i64, -7, 42, i64::MAX, i64::MIN] {
        let (r, b) = compile(&program(vec![lit(n)]));
        assert_eq!(r, Ok(()));
        assert_eq!(values(&b), vec![Object::Integer(n)]);
        assert_eq!(b.instructions, vec![OP_CONSTANT, 0, 0, OP_POP]);
    }
}

#[test]
fn equal_literals_are_not_shared() {
    let (r, b) = compile(&program(vec![lit(5), lit(5)]));
    assert_eq!(r, Ok(()));
    assert_eq!(values(&b), vec![Object::Integer(5), Object::Integer(5)]);
    assert_eq!(b.instructions, vec![OP_CONSTANT, 0, 0, OP_POP, OP_CONSTANT, 0, 1, OP_POP]);
}

#[test]
fn nested_infix_is_left_then_right() {
    // (1 - 2) / (3 + 4)
    let e = infix(
        Infix::Slash,
        infix(Infix::Minus, lit(1), lit(2)),
        infix(Infix::Plus, lit(3), lit(4)),
    );
    let (r, b) = compile(&program(vec![e]));
    assert_eq!(r, Ok(()));
    assert_eq!(
        values(&b),
        vec![Object::Integer(1), Object::Integer(2), Object::Integer(3), Object::Integer(4)]
    );
    assert_eq!(
        b.instructions,
        vec![
            OP_CONSTANT, 0, 0, OP_CONSTANT, 0, 1, OP_SUB, OP_CONSTANT, 0, 2, OP_CONSTANT, 0, 3,
            OP_ADD, OP_DIV, OP_POP,
        ]
    );
}

#[test]
fn unknown_operator_fails_without_operator_byte() {
    let (r, b) = compile(&program(vec![infix(Infix::Lt, lit(1), lit(2))]));
    assert_eq!(r, Err(CompileError::UnknownOperator(Infix::Lt)));
    assert_eq!(b.instructions, vec![OP_CONSTANT, 0, 0, OP_CONSTANT, 0, 1]);
    assert_eq!(values(&b), vec![Object::Integer(1), Object::Integer(2)]);
}

#[test]
fn first_error_stops_compilation() {
    let p = program(vec![infix(Infix::NotEq, lit(1), lit(2)), lit(3)]);
    let (r, b) = compile(&p);
    assert_eq!(r, Err(CompileError::UnknownOperator(Infix::NotEq)));
    assert_eq!(values(&b), vec![Object::Integer(1), Object::Integer(2)]);
}

#[test]
fn unknown_operator_message() {
    assert_eq!(CompileError::UnknownOperator(Infix::Eq).message(), "unknown operator: ==");
    assert_eq!(CompileError::UnknownOperator(Infix::Gt).message(), "unknown operator: >");
}

#[test]
fn unsupported_statement_is_an_error() {
    let p = Program { statements: vec![Statement::Return(lit(1))] };
    let (r, b) = compile(&p);
    assert_eq!(r, Err(CompileError::UnsupportedStatement));
    assert!(b.instructions.is_empty());
}

#[test]
fn unsupported_expression_is_an_error() {
    let (r, b) = compile(&program(vec![Expression::Identifier("x".to_string())]));
    assert_eq!(r, Err(CompileError::UnsupportedExpression));
    assert!(b.instructions.is_empty());
    assert!(b.constants.is_empty());
}

#[test]
fn constant_pool_limit() {
    let mut c = Compiler::new();
    let p = program((0..65536).map(lit).collect());
    assert_eq!(c.compile(&p), Ok(()));
    let n = c.instructions.len();
    assert_eq!(&c.instructions[n - 4..], &[OP_CONSTANT, 0xff, 0xff, OP_POP]);
    assert_eq!(c.compile(&program(vec![lit(1)])), Err(CompileError::ConstantPoolFull));
    assert_eq!(c.constants.len(), 65536);
    assert_eq!(c.instructions.len(), n);
    assert_eq!(CompileError::ConstantPoolFull.message(), "constant pool exhausted");
}

#[test]
fn compiling_twice_gives_the_same_output() {
    let p = program(vec![
        infix(Infix::Plus, lit(1), Expression::StringLiteral("s".to_string())),
        Expression::Boolean(true),
    ]);
    let (r1, b1) = compile(&p);
    let (r2, b2) = compile(&p);
    assert_eq!(r1, r2);
    assert_eq!(b1.instructions, b2.instructions);
    assert_eq!(values(&b1), values(&b2));
}

#[test]
fn constant_operand_is_big_endian() {
    assert_eq!(Instruction::Constant(0x1234).encode(), vec![OP_CONSTANT, 0x12, 0x34]);
    assert_eq!(Instruction::Pop.encode(), vec![OP_POP]);
}
