use std::rc::Rc;
use vstd::prelude::*;
use crate::ast::{symbol_of, Expression, Infix, Program, Statement};
use crate::code::{encode_all, instruction_bytes, lemma_encode_all_concat, lemma_encode_one, Instruction};
use crate::object::Object;

verus! {

/// How many entries the constant pool can hold: a `Constant` operand has two bytes.
pub const MAX_CONSTANTS: usize = 65536;

/// Why a compilation stopped.
#[derive(Clone, Copy, Debug, PartialEq, Eq, Structural)]
pub enum CompileError {
    /// An infix operator that has no instruction.
    UnknownOperator(Infix),
    /// The constant pool already holds as many entries as an operand can index.
    ConstantPoolFull,
    /// A statement kind that the compiler does not lower.
    UnsupportedStatement,
    /// An expression kind that the compiler does not lower.
    UnsupportedExpression,
}

/// The diagnostic text of an error.
pub open spec fn error_message(e: CompileError) -> Seq<char> {
    match e {
        CompileError::UnknownOperator(op) => "unknown operator: "@ + symbol_of(op),
        CompileError::ConstantPoolFull => "constant pool exhausted"@,
        CompileError::UnsupportedStatement => "unsupported statement"@,
        CompileError::UnsupportedExpression => "unsupported expression"@,
    }
}

impl CompileError {
    /// A human-readable diagnostic for this error.
    pub fn message(&self) -> (r: String)
        ensures
            r@ == error_message(*self),
    {
        match self {
            CompileError::UnknownOperator(op) => {
                let s = String::from_str("unknown operator: ");
                s.concat(op.symbol())
            },
            CompileError::ConstantPoolFull => String::from_str("constant pool exhausted"),
            CompileError::UnsupportedStatement => String::from_str("unsupported statement"),
            CompileError::UnsupportedExpression => String::from_str("unsupported expression"),
        }
    }
}

/// What compiling a node yields: the instructions it emits, the constant pool
/// afterwards, and the error that stopped it, if any.
pub type Outcome = (Seq<Instruction>, Seq<Object>, Option<CompileError>);

/// The instruction of a supported infix operator.
pub open spec fn operator_instruction(op: Infix) -> Option<Instruction> {
    match op {
        Infix::Plus => Some(Instruction::Add),
        Infix::Minus => Some(Instruction::Sub),
        Infix::Asterisk => Some(Instruction::Mul),
        Infix::Slash => Some(Instruction::Div),
        _ => None,
    }
}

/// Appending a literal to the pool and loading it, or failing when the pool is full.
pub open spec fn literal_code(pool: Seq<Object>, value: Object) -> Outcome {
    if pool.len() >= MAX_CONSTANTS {
        (Seq::empty(), pool, Some(CompileError::ConstantPoolFull))
    } else {
        (seq![Instruction::Constant(pool.len() as u16)], pool.push(value), None)
    }
}

/// What compiling an expression on top of the pool `pool` yields.
pub open spec fn expr_code(pool: Seq<Object>, e: Expression) -> Outcome
    decreases e,
{
    match e {
        Expression::Infix(op, l, r) => {
            let a = expr_code(pool, *l);
            if a.2.is_some() {
                a
            } else {
                let b = expr_code(a.1, *r);
                if b.2.is_some() {
                    (a.0 + b.0, b.1, b.2)
                } else {
                    match operator_instruction(op) {
                        Some(i) => (a.0 + b.0 + seq![i], b.1, None),
                        None => (a.0 + b.0, b.1, Some(CompileError::UnknownOperator(op))),
                    }
                }
            }
        },
        Expression::IntegerLiteral(v) => literal_code(pool, Object::Integer(v)),
        Expression::StringLiteral(s) => literal_code(pool, Object::String(s)),
        Expression::Boolean(b) => (
            seq![
                if b {
                    Instruction::True
                } else {
                    Instruction::False
                },
            ],
            pool,
            None,
        ),
        _ => (Seq::empty(), pool, Some(CompileError::UnsupportedExpression)),
    }
}

/// What compiling a statement on top of the pool `pool` yields.
pub open spec fn stmt_code(pool: Seq<Object>, s: Statement) -> Outcome {
    match s {
        Statement::Expression(e) => {
            let a = expr_code(pool, e);
            if a.2.is_some() {
                a
            } else {
                (a.0.push(Instruction::Pop), a.1, None)
            }
        },
        _ => (Seq::empty(), pool, Some(CompileError::UnsupportedStatement)),
    }
}

/// What compiling a sequence of statements in order yields; the first error stops it.
pub open spec fn program_code(pool: Seq<Object>, s: Seq<Statement>) -> Outcome
    decreases s.len(),
{
    if s.len() == 0 {
        (Seq::empty(), pool, None)
    } else {
        let a = program_code(pool, s.drop_last());
        if a.2.is_some() {
            a
        } else {
            let b = stmt_code(a.1, s.last());
            (a.0 + b.0, b.1, b.2)
        }
    }
}

/// The result that a compile step returns for a given outcome.
pub open spec fn result_of(e: Option<CompileError>) -> Result<(), CompileError> {
    match e {
        Some(x) => Err(x),
        None => Ok(()),
    }
}

/// Once a prefix of the statements fails, the rest adds nothing.
proof fn lemma_error_stops(pool: Seq<Object>, s: Seq<Statement>, k: int)
    requires
        0 <= k <= s.len(),
        program_code(pool, s.take(k)).2.is_some(),
    ensures
        program_code(pool, s) == program_code(pool, s.take(k)),
    decreases s.len(),
{
    if k == s.len() {
        assert(s.take(k) =~= s);
    } else {
        assert(s.drop_last().take(k) =~= s.take(k));
        lemma_error_stops(pool, s.drop_last(), k);
    }
}

/// The state of one compilation: the bytes emitted so far and the constant pool.
pub struct Compiler {
    pub instructions: Vec<u8>,
    pub constants: Vec<Rc<Object>>,
}

/// The finished output: the instruction stream and the constant pool it indexes.
pub struct Bytecode {
    pub instructions: Vec<u8>,
    pub constants: Vec<Rc<Object>>,
}

/// The values that a sequence of shared constants holds.
pub open spec fn pool_of(c: Seq<Rc<Object>>) -> Seq<Object> {
    c.map_values(|v: Rc<Object>| *v)
}

impl Compiler {
    /// The constant pool as values.
    pub open spec fn pool(&self) -> Seq<Object> {
        pool_of(self.constants@)
    }

    /// A compiler with no instructions and an empty constant pool.
    pub fn new() -> (r: Compiler)
        ensures
            r.instructions@ == Seq::<u8>::empty(),
            r.pool() == Seq::<Object>::empty(),
    {
        let r = Compiler { instructions: Vec::new(), constants: Vec::new() };
        assert(r.pool() =~= Seq::<Object>::empty());
        r
    }

    /// Compiles the statements of `program` in order, stopping at the first error.
    pub fn compile(&mut self, program: &Program) -> (r: Result<(), CompileError>)
        ensures
            ({
                let o = program_code(old(self).pool(), program.statements@);
                &&& final(self).instructions@ == old(self).instructions@ + encode_all(o.0)
                &&& final(self).pool() == o.1
                &&& r == result_of(o.2)
            }),
    {
        let ghost code0 = self.instructions@;
        let ghost pool0 = self.pool();
        let n = program.statements.len();
        let mut i: usize = 0;
        proof {
            assert(program.statements@.take(0) =~= Seq::<Statement>::empty());
            assert(code0 + encode_all(Seq::<Instruction>::empty()) =~= code0);
        }
        while i < n
            invariant
                i <= n,
                n == program.statements@.len(),
                code0 == old(self).instructions@,
                pool0 == old(self).pool(),
                ({
                    let o = program_code(pool0, program.statements@.take(i as int));
                    &&& o.2.is_none()
                    &&& self.instructions@ == code0 + encode_all(o.0)
                    &&& self.pool() == o.1
                }),
            decreases n - i,
        {
            let ghost a = program_code(pool0, program.statements@.take(i as int));
            let ghost b = stmt_code(a.1, program.statements@[i as int]);
            let r = self.compile_statement(&program.statements[i]);
            proof {
                let t = program.statements@.take(i + 1);
                assert(t.drop_last() =~= program.statements@.take(i as int));
                assert(t.last() == program.statements@[i as int]);
                lemma_encode_all_concat(a.0, b.0);
                assert(self.instructions@ =~= code0 + encode_all(a.0 + b.0));
                assert(program_code(pool0, t) == (a.0 + b.0, b.1, b.2));
            }
            match r {
                Err(e) => {
                    proof {
                        lemma_error_stops(pool0, program.statements@, i + 1);
                    }
                    return Err(e);
                },
                Ok(()) => {},
            }
            i = i + 1;
        }
        proof {
            assert(program.statements@.take(n as int) =~= program.statements@);
        }
        Ok(())
    }

    /// Compiles one statement: an expression statement loads its value and pops it.
    pub fn compile_statement(&mut self, statement: &Statement) -> (r: Result<(), CompileError>)
        ensures
            ({
                let o = stmt_code(old(self).pool(), *statement);
                &&& final(self).instructions@ == old(self).instructions@ + encode_all(o.0)
                &&& final(self).pool() == o.1
                &&& r == result_of(o.2)
            }),
    {
        match statement {
            Statement::Expression(exp) => {
                let ghost a = expr_code(self.pool(), *exp);
                match self.compile_expression(exp) {
                    Err(e) => {
                        return Err(e);
                    },
                    Ok(()) => {},
                }
                self.emit(Instruction::Pop);
                proof {
                    lemma_encode_all_concat(a.0, seq![Instruction::Pop]);
                    lemma_encode_one(Instruction::Pop);
                    assert(a.0.push(Instruction::Pop) =~= a.0 + seq![Instruction::Pop]);
                    assert(self.instructions@ =~= old(self).instructions@ + encode_all(
                        a.0.push(Instruction::Pop),
                    ));
                }
                Ok(())
            },
            _ => {
                assert(old(self).instructions@ + encode_all(Seq::<Instruction>::empty())
                    =~= old(self).instructions@);
                Err(CompileError::UnsupportedStatement)
            },
        }
    }

    /// Compiles one expression so that its code leaves its value on the stack:
    /// operands left before right, then the operator.
    pub fn compile_expression(&mut self, expression: &Expression) -> (r: Result<(), CompileError>)
        ensures
            ({
                let o = expr_code(old(self).pool(), *expression);
                &&& final(self).instructions@ == old(self).instructions@ + encode_all(o.0)
                &&& final(self).pool() == o.1
                &&& r == result_of(o.2)
            }),
        decreases expression,
    {
        let ghost code0 = self.instructions@;
        proof {
            assert(code0 + encode_all(Seq::<Instruction>::empty()) =~= code0);
        }
        match expression {
            Expression::Infix(infix, left, right) => {
                let ghost a = expr_code(self.pool(), **left);
                match self.compile_expression(left) {
                    Err(e) => {
                        return Err(e);
                    },
                    Ok(()) => {},
                }
                let ghost b = expr_code(self.pool(), **right);
                match self.compile_expression(right) {
                    Err(e) => {
                        proof {
                            lemma_encode_all_concat(a.0, b.0);
                        }
                        return Err(e);
                    },
                    Ok(()) => {},
                }
                proof {
                    lemma_encode_all_concat(a.0, b.0);
                }
                let ins = match infix {
                    Infix::Plus => Instruction::Add,
                    Infix::Minus => Instruction::Sub,
                    Infix::Asterisk => Instruction::Mul,
                    Infix::Slash => Instruction::Div,
                    inf => {
                        return Err(CompileError::UnknownOperator(*inf));
                    },
                };
                self.emit(ins);
                proof {
                    lemma_encode_all_concat(a.0 + b.0, seq![ins]);
                    lemma_encode_one(ins);
                }
                Ok(())
            },
            Expression::IntegerLiteral(value) => {
                self.emit_literal(Object::Integer(*value))
            },
            Expression::Boolean(b) => {
                let ins = if *b {
                    Instruction::True
                } else {
                    Instruction::False
                };
                self.emit(ins);
                proof {
                    lemma_encode_one(ins);
                }
                Ok(())
            },
            Expression::StringLiteral(value) => {
                self.emit_literal(Object::String(value.clone()))
            },
            _ => Err(CompileError::UnsupportedExpression),
        }
    }

    /// Puts a literal in the pool and emits the instruction that loads it.
    fn emit_literal(&mut self, value: Object) -> (r: Result<(), CompileError>)
        ensures
            ({
                let o = literal_code(old(self).pool(), value);
                &&& final(self).instructions@ == old(self).instructions@ + encode_all(o.0)
                &&& final(self).pool() == o.1
                &&& r == result_of(o.2)
            }),
    {
        match self.add_constant(Rc::new(value)) {
            Err(e) => {
                assert(old(self).instructions@ + encode_all(Seq::<Instruction>::empty())
                    =~= old(self).instructions@);
                Err(e)
            },
            Ok(index) => {
                self.emit(Instruction::Constant(index));
                proof {
                    lemma_encode_one(Instruction::Constant(index));
                }
                Ok(())
            },
        }
    }

    /// Appends a value to the pool and returns its index, or fails when the
    /// pool already holds as many entries as an operand can index.
    fn add_constant(&mut self, constant: Rc<Object>) -> (r: Result<u16, CompileError>)
        ensures
            final(self).instructions@ == old(self).instructions@,
            old(self).pool().len() < MAX_CONSTANTS ==> {
                &&& r == Ok::<u16, CompileError>(old(self).pool().len() as u16)
                &&& final(self).pool() == old(self).pool().push(*constant)
            },
            old(self).pool().len() >= MAX_CONSTANTS ==> {
                &&& r == Err::<u16, CompileError>(CompileError::ConstantPoolFull)
                &&& final(self).pool() == old(self).pool()
            },
    {
        let len = self.constants.len();
        if len >= MAX_CONSTANTS {
            return Err(CompileError::ConstantPoolFull);
        }
        self.constants.push(constant);
        assert(self.pool() =~= old(self).pool().push(*constant));
        Ok(len as u16)
    }

    /// Appends the bytes of one instruction.
    fn emit(&mut self, ins: Instruction)
        ensures
            final(self).instructions@ == old(self).instructions@ + instruction_bytes(ins),
            final(self).constants == old(self).constants,
    {
        let bytes = ins.encode();
        let mut i: usize = 0;
        while i < bytes.len()
            invariant
                i <= bytes@.len(),
                self.constants == old(self).constants,
                self.instructions@ == old(self).instructions@ + bytes@.take(i as int),
            decreases bytes@.len() - i,
        {
            self.instructions.push(bytes[i]);
            assert(bytes@.take(i + 1) =~= bytes@.take(i as int).push(bytes@[i as int]));
            i = i + 1;
        }
        assert(bytes@.take(bytes@.len() as int) =~= bytes@);
    }

    /// Hands the instructions and the constant pool over as the finished output.
    pub fn bytecode(self) -> (r: Bytecode)
        ensures
            r.instructions == self.instructions,
            r.constants == self.constants,
    {
        Bytecode { instructions: self.instructions, constants: self.constants }
    }
}

} // verus!
