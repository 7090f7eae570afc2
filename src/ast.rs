use vstd::prelude::*;

verus! {

/// A binary operator of the source language.
#[derive(Clone, Copy, Debug, PartialEq, Eq, Structural)]
pub enum Infix {
    Plus,
    Minus,
    Asterisk,
    Slash,
    Lt,
    Gt,
    Eq,
    NotEq,
}

/// The characters with which an operator is written.
pub open spec fn symbol_of(op: Infix) -> Seq<char> {
    match op {
        Infix::Plus => seq!['+'],
        Infix::Minus => seq!['-'],
        Infix::Asterisk => seq!['*'],
        Infix::Slash => seq!['/'],
        Infix::Lt => seq!['<'],
        Infix::Gt => seq!['>'],
        Infix::Eq => seq!['=', '='],
        Infix::NotEq => seq!['!', '='],
    }
}

impl Infix {
    /// How the operator is written in source text.
    pub fn symbol(&self) -> (r: &'static str)
        ensures
            r@ == symbol_of(*self),
    {
        match self {
            Infix::Plus => {
                proof { reveal_strlit("+"); }
                "+"
            },
            Infix::Minus => {
                proof { reveal_strlit("-"); }
                "-"
            },
            Infix::Asterisk => {
                proof { reveal_strlit("*"); }
                "*"
            },
            Infix::Slash => {
                proof { reveal_strlit("/"); }
                "/"
            },
            Infix::Lt => {
                proof { reveal_strlit("<"); }
                "<"
            },
            Infix::Gt => {
                proof { reveal_strlit(">"); }
                ">"
            },
            Infix::Eq => {
                proof { reveal_strlit("=="); }
                "=="
            },
            Infix::NotEq => {
                proof { reveal_strlit("!="); }
                "!="
            },
        }
    }
}

/// A unary operator of the source language.
#[derive(Clone, Copy, Debug, PartialEq, Eq, Structural)]
pub enum Prefix {
    Bang,
    Minus,
}

/// An expression node of the syntax tree.
pub enum Expression {
    Identifier(String),
    IntegerLiteral(i64),
    StringLiteral(String),
    Boolean(bool),
    Prefix(Prefix, Box<Expression>),
    Infix(Infix, Box<Expression>, Box<Expression>),
}

/// A statement node of the syntax tree.
pub enum Statement {
    Let(String, Expression),
    Return(Expression),
    Expression(Expression),
}

/// A whole program: its statements in source order.
pub struct Program {
    pub statements: Vec<Statement>,
}

} // verus!
