use vstd::prelude::*;
use crate::ast::{Expression, Infix, Statement};
use crate::code::{
    encode_all, instruction_bytes, lemma_encode_all_concat, lemma_encode_one, Instruction,
    OP_CONSTANT, OP_FALSE, OP_POP, OP_TRUE,
};
use crate::compiler::{
    expr_code, operator_instruction, program_code, stmt_code, CompileError, MAX_CONSTANTS,
};
use crate::object::Object;

verus! {

/// An integer literal compiled as an expression statement loads the constant
/// that it appended at the end of the pool, then pops it.
pub proof fn lemma_integer_statement(pool: Seq<Object>, n: i64)
    requires
        pool.len() < MAX_CONSTANTS,
    ensures
        ({
            let o = stmt_code(pool, Statement::Expression(Expression::IntegerLiteral(n)));
            let i = pool.len() as u16;
            &&& o.2.is_none()
            &&& o.0 == seq![Instruction::Constant(i), Instruction::Pop]
            &&& o.1 == pool.push(Object::Integer(n))
            &&& o.1[i as int] == Object::Integer(n)
            &&& encode_all(o.0) == seq![OP_CONSTANT, (i / 256) as u8, (i % 256) as u8, OP_POP]
        }),
{
    let i = pool.len() as u16;
    let s = seq![Instruction::Constant(i), Instruction::Pop];
    assert(seq![Instruction::Constant(i)].push(Instruction::Pop) =~= s);
    lemma_encode_all_concat(seq![Instruction::Constant(i)], seq![Instruction::Pop]);
    assert(seq![Instruction::Constant(i)] + seq![Instruction::Pop] =~= s);
    lemma_encode_one(Instruction::Constant(i));
    lemma_encode_one(Instruction::Pop);
    assert(encode_all(s) =~= seq![OP_CONSTANT, (i / 256) as u8, (i % 256) as u8, OP_POP]);
}

/// A supported infix expression emits the code of its left operand, then that
/// of its right operand (against the pool the left one left), then its operator.
pub proof fn lemma_infix_order(
    pool: Seq<Object>,
    op: Infix,
    left: Box<Expression>,
    right: Box<Expression>,
)
    requires
        operator_instruction(op).is_some(),
        expr_code(pool, *left).2.is_none(),
        expr_code(expr_code(pool, *left).1, *right).2.is_none(),
    ensures
        ({
            let a = expr_code(pool, *left);
            let b = expr_code(a.1, *right);
            let o = expr_code(pool, Expression::Infix(op, left, right));
            &&& o.2.is_none()
            &&& o.1 == b.1
            &&& encode_all(o.0) == encode_all(a.0) + encode_all(b.0) + instruction_bytes(
                operator_instruction(op).unwrap(),
            )
        }),
{
    let a = expr_code(pool, *left);
    let b = expr_code(a.1, *right);
    let ins = operator_instruction(op).unwrap();
    lemma_encode_all_concat(a.0 + b.0, seq![ins]);
    lemma_encode_all_concat(a.0, b.0);
    lemma_encode_one(ins);
}

/// A boolean literal emits its one instruction and leaves the pool as it was.
pub proof fn lemma_boolean(pool: Seq<Object>, b: bool)
    ensures
        ({
            let o = expr_code(pool, Expression::Boolean(b));
            &&& o.2.is_none()
            &&& o.1 == pool
            &&& b ==> o.0 == seq![Instruction::True] && encode_all(o.0) == seq![OP_TRUE]
            &&& !b ==> o.0 == seq![Instruction::False] && encode_all(o.0) == seq![OP_FALSE]
        }),
{
    lemma_encode_one(Instruction::True);
    lemma_encode_one(Instruction::False);
}

/// An infix operator without an instruction makes the compilation fail; when
/// both operands compiled, the error names the operator and nothing follows
/// the operands' code.
pub proof fn lemma_unknown_operator(
    pool: Seq<Object>,
    op: Infix,
    left: Box<Expression>,
    right: Box<Expression>,
)
    requires
        operator_instruction(op).is_none(),
    ensures
        ({
            let a = expr_code(pool, *left);
            let b = expr_code(a.1, *right);
            let o = expr_code(pool, Expression::Infix(op, left, right));
            &&& o.2.is_some()
            &&& a.2.is_none() && b.2.is_none() ==> {
                &&& o.2 == Some(CompileError::UnknownOperator(op))
                &&& o.0 == a.0 + b.0
                &&& encode_all(o.0) == encode_all(a.0) + encode_all(b.0)
            }
        }),
{
    let a = expr_code(pool, *left);
    let b = expr_code(a.1, *right);
    lemma_encode_all_concat(a.0, b.0);
}

/// Compiling equal programs from equal pools gives equal instructions, pools and results.
pub proof fn lemma_deterministic(
    pool1: Seq<Object>,
    pool2: Seq<Object>,
    s1: Seq<Statement>,
    s2: Seq<Statement>,
)
    requires
        pool1 == pool2,
        s1 == s2,
    ensures
        program_code(pool1, s1) == program_code(pool2, s2),
        encode_all(program_code(pool1, s1).0) == encode_all(program_code(pool2, s2).0),
{
}

/// How many values an instruction adds to the operand stack (negative: removes).
pub open spec fn stack_effect_of(ins: Instruction) -> int {
    match ins {
        Instruction::Constant(_) | Instruction::True | Instruction::False => 1,
        _ => -1,
    }
}

/// The net change of the operand stack depth over a sequence of instructions.
pub open spec fn stack_effect(s: Seq<Instruction>) -> int
    decreases s.len(),
{
    if s.len() == 0 {
        0
    } else {
        stack_effect(s.drop_last()) + stack_effect_of(s.last())
    }
}

proof fn lemma_stack_effect_concat(a: Seq<Instruction>, b: Seq<Instruction>)
    ensures
        stack_effect(a + b) == stack_effect(a) + stack_effect(b),
    decreases b.len(),
{
    if b.len() == 0 {
        assert(a + b =~= a);
    } else {
        lemma_stack_effect_concat(a, b.drop_last());
        assert((a + b).drop_last() =~= a + b.drop_last());
    }
}

proof fn lemma_stack_effect_one(ins: Instruction)
    ensures
        stack_effect(seq![ins]) == stack_effect_of(ins),
{
    assert(seq![ins].drop_last() =~= Seq::<Instruction>::empty());
    assert(seq![ins].last() == ins);
    assert(stack_effect(Seq::<Instruction>::empty()) == 0);
}

/// The code of an expression that compiled leaves exactly one value on the stack.
pub proof fn lemma_expression_pushes_one(pool: Seq<Object>, e: Expression)
    requires
        expr_code(pool, e).2.is_none(),
    ensures
        stack_effect(expr_code(pool, e).0) == 1,
    decreases e,
{
    match e {
        Expression::Infix(op, l, r) => {
            let a = expr_code(pool, *l);
            let b = expr_code(a.1, *r);
            lemma_expression_pushes_one(pool, *l);
            lemma_expression_pushes_one(a.1, *r);
            let ins = operator_instruction(op).unwrap();
            lemma_stack_effect_concat(a.0, b.0);
            lemma_stack_effect_concat(a.0 + b.0, seq![ins]);
            lemma_stack_effect_one(ins);
        },
        Expression::IntegerLiteral(_) => {
            lemma_stack_effect_one(expr_code(pool, e).0[0]);
            assert(expr_code(pool, e).0 =~= seq![expr_code(pool, e).0[0]]);
        },
        Expression::StringLiteral(_) => {
            lemma_stack_effect_one(expr_code(pool, e).0[0]);
            assert(expr_code(pool, e).0 =~= seq![expr_code(pool, e).0[0]]);
        },
        Expression::Boolean(b) => {
            lemma_stack_effect_one(Instruction::True);
            lemma_stack_effect_one(Instruction::False);
        },
        _ => {},
    }
}

/// The code of a statement that compiled leaves the stack depth as it found it,
/// and so does the code of a program that compiled.
pub proof fn lemma_program_stack_neutral(pool: Seq<Object>, s: Seq<Statement>)
    requires
        program_code(pool, s).2.is_none(),
    ensures
        stack_effect(program_code(pool, s).0) == 0,
    decreases s.len(),
{
    if s.len() > 0 {
        let a = program_code(pool, s.drop_last());
        lemma_program_stack_neutral(pool, s.drop_last());
        let b = stmt_code(a.1, s.last());
        if let Statement::Expression(e) = s.last() {
            let c = expr_code(a.1, e);
            lemma_expression_pushes_one(a.1, e);
            assert(c.0.push(Instruction::Pop) =~= c.0 + seq![Instruction::Pop]);
            lemma_stack_effect_concat(c.0, seq![Instruction::Pop]);
            lemma_stack_effect_one(Instruction::Pop);
        }
        lemma_stack_effect_concat(a.0, b.0);
    }
}

} // verus!
