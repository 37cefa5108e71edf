//! Syntax trees of programs.

use vstd::prelude::*;
use vstd::string::*;

use crate::text::{decimal, decimal_text};

verus! {

/// A piece of source text and the line it stands in.
#[derive(Debug, Clone)]
pub struct Token {
    pub lexeme: String,
    pub line: u32,
}

#[derive(Debug)]
#[allow(inconsistent_fields)]
pub enum Expr {
    Binary { left: Box<Expr>, operator: Token, right: Box<Expr>, line: u32 },
    Grouping { expression: Box<Expr>, line: u32 },
    Literal { value: LiteralValue, line: u32 },
    Unary { operator: Token, right: Box<Expr>, line: u32 },
    Variable { name: Token, line: u32 },
    Assign { name: Token, value: Box<Expr>, line: u32 },
    And { left: Box<Expr>, right: Box<Expr>, line: u32 },
    Or { left: Box<Expr>, right: Box<Expr>, line: u32 },
    Call { callee: Box<Expr>, arguments: Vec<Expr>, line: u32 },
    Invoke { object: Box<Expr>, method: Token, arguments: Vec<Expr>, line: u32 },
    Get { object: Box<Expr>, name: Token, line: u32 },
    SetProperty { object: Box<Expr>, name: Token, value: Box<Expr>, line: u32 },
    This { line: u32 },
    Super { method: Token, arguments: Vec<Expr>, line: u32 },
    Prompt { expression: Box<Expr>, line: u32 },
}

impl Expr {
    /// The line that the expression stands in.
    pub open spec fn at(self) -> u32 {
        match self {
            Expr::Binary { line, .. } => line,
            Expr::Grouping { line, .. } => line,
            Expr::Literal { line, .. } => line,
            Expr::Unary { line, .. } => line,
            Expr::Variable { line, .. } => line,
            Expr::Assign { line, .. } => line,
            Expr::And { line, .. } => line,
            Expr::Or { line, .. } => line,
            Expr::Call { line, .. } => line,
            Expr::Invoke { line, .. } => line,
            Expr::Get { line, .. } => line,
            Expr::SetProperty { line, .. } => line,
            Expr::This { line } => line,
            Expr::Super { line, .. } => line,
            Expr::Prompt { line, .. } => line,
        }
    }

    /// The line that the expression stands in.
    pub fn line(&self) -> (r: u32)
        ensures
            r == self.at(),
    {
        match self {
            Self::Binary { line, .. }
            | Self::Grouping { line, .. }
            | Self::Literal { line, .. }
            | Self::Unary { line, .. }
            | Self::Variable { line, .. }
            | Self::Assign { line, .. }
            | Self::And { line, .. }
            | Self::Or { line, .. }
            | Self::Call { line, .. }
            | Self::Invoke { line, .. }
            | Self::Get { line, .. }
            | Self::SetProperty { line, .. }
            | Self::This { line, .. }
            | Self::Super { line, .. }
            | Self::Prompt { line, .. } => *line,
        }
    }
}

#[derive(Debug)]
#[allow(inconsistent_fields)]
pub enum Stmt {
    Expression { expression: Expr, line: u32 },
    Print { expression: Expr, line: u32 },
    Let { name: Token, initializer: Option<Expr>, line: u32 },
    Block { statements: Vec<Stmt>, line: u32 },
    If {
        condition: Expr,
        then_branch: Box<Stmt>,
        else_branch: Option<Box<Stmt>>,
        line: u32,
    },
    While { condition: Expr, body: Box<Stmt>, line: u32 },
    Function { name: Token, params: Vec<Token>, body: Vec<Stmt>, is_ai: bool, line: u32 },
    Return { value: Option<Expr>, line: u32 },
    Class { name: Token, superclass: Option<Expr>, methods: Vec<Stmt>, line: u32 },
}

impl Stmt {
    /// The line that the statement stands in.
    pub open spec fn at(self) -> u32 {
        match self {
            Stmt::Expression { line, .. } => line,
            Stmt::Print { line, .. } => line,
            Stmt::Let { line, .. } => line,
            Stmt::Block { line, .. } => line,
            Stmt::If { line, .. } => line,
            Stmt::While { line, .. } => line,
            Stmt::Function { line, .. } => line,
            Stmt::Return { line, .. } => line,
            Stmt::Class { line, .. } => line,
        }
    }

    /// The line that the statement stands in.
    pub fn line(&self) -> (r: u32)
        ensures
            r == self.at(),
    {
        match self {
            Self::Expression { line, .. }
            | Self::Print { line, .. }
            | Self::Let { line, .. }
            | Self::Block { line, .. }
            | Self::If { line, .. }
            | Self::While { line, .. }
            | Self::Function { line, .. }
            | Self::Return { line, .. }
            | Self::Class { line, .. } => *line,
        }
    }
}

/// A value that is written in the source text.
#[derive(Debug, Clone)]
pub enum LiteralValue {
    /// The bits of a number.
    Number(u64),
    /// The place of an interned string.
    String(usize),
    Boolean(bool),
    Nil,
}

#[derive(Debug)]
pub struct Program {
    pub statements: Vec<Stmt>,
}

impl Program {
    /// A program without statements.
    pub fn new() -> (r: Self)
        ensures
            r.statements@ == Seq::<Stmt>::empty(),
    {
        Self { statements: Vec::new() }
    }
}

/// Why source text is not a program.
#[derive(Debug)]
pub struct ParseError {
    pub message: String,
    pub line: u32,
}

impl ParseError {
    /// The error with a message and the line where it was found.
    pub fn new<M: Into<String>>(message: M, line: u32) -> (r: Self)
        ensures
            call_ensures(M::into, (message,), r.message),
            r.line == line,
    {
        Self { message: message.into(), line }
    }

    /// The error as text.
    pub fn to_string(&self) -> (r: String)
        ensures
            r@ == "[line "@ + decimal(self.line as nat) + "] Error: "@ + self.message@,
    {
        let mut text: String = String::from("[line ");
        let line: String = decimal_text(self.line);
        text.append(line.as_str());
        text.append("] Error: ");
        text.append(self.message.as_str());
        text
    }
}

} // verus!
