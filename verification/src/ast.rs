//! The abstract syntax tree of the scripting language. The core makes no
//! assumption about how this tree was produced.

use vstd::prelude::*;
use std::rc::Rc;
use crate::ident::Identifier;
use crate::gdstring::GdString;
use crate::ops::{UnaryOp, BinaryOp, AssignOp};

verus! {

/// An expression.
#[derive(Debug)]
pub enum Expr {
    Array(Vec<Expr>),
    Dictionary(Vec<DictEntry>),
    Literal(Literal),
    Name(Identifier),
    GetNode(Identifier),
    Call { func: Box<Expr>, args: Vec<Expr> },
    Subscript(Box<Expr>, Box<Expr>),
    Attr(Box<Expr>, Identifier),
    AttrCall(Box<Expr>, Identifier, Vec<Expr>),
    BinaryOp(Box<Expr>, BinaryOp, Box<Expr>),
    UnaryOp(UnaryOp, Box<Expr>),
    Await(Box<Expr>),
    Lambda(Rc<Lambda>),
    Conditional { if_true: Box<Expr>, cond: Box<Expr>, if_false: Box<Expr> },
    /// No source expression compiles to this; signal declarations use it
    /// as their initializer.
    NewSignal,
}

/// One key-value pair of a dictionary display.
#[derive(Debug)]
pub struct DictEntry {
    pub key: Expr,
    pub value: Expr,
}

/// A literal constant. Floating-point literals are outside this core.
#[derive(Debug, Clone)]
pub enum Literal {
    Null,
    Bool(bool),
    Int(i64),
    String(GdString),
}

/// An anonymous function expression.
#[derive(Debug)]
pub struct Lambda {
    pub name: Option<Identifier>,
    pub params: Vec<Parameter>,
    pub body: Vec<Stmt>,
}

/// A statement.
#[derive(Debug)]
pub enum Stmt {
    ExprStmt(Box<Expr>),
    Var(VarStmt),
    Return(Option<Box<Expr>>),
    If(IfStmt),
    While(WhileStmt),
    For(ForStmt),
    Match(MatchStmt),
    Pass,
    Break,
    Continue,
    AssignOp(Box<Expr>, AssignOp, Box<Expr>),
}

/// A local-variable declaration.
#[derive(Debug)]
pub struct VarStmt {
    pub name: Identifier,
    pub initial_value: Option<Box<Expr>>,
}

/// An `if` statement with its `elif` and `else` clauses.
#[derive(Debug)]
pub struct IfStmt {
    pub condition: Box<Expr>,
    pub body: Vec<Stmt>,
    pub elif_clauses: Vec<ElifClause>,
    pub else_clause: Option<Vec<Stmt>>,
}

/// One `elif` clause.
#[derive(Debug)]
pub struct ElifClause {
    pub condition: Box<Expr>,
    pub body: Vec<Stmt>,
}

/// A `while` loop.
#[derive(Debug)]
pub struct WhileStmt {
    pub condition: Box<Expr>,
    pub body: Vec<Stmt>,
}

/// A `for` loop.
#[derive(Debug)]
pub struct ForStmt {
    pub variable: Identifier,
    pub iterable: Box<Expr>,
    pub body: Vec<Stmt>,
}

/// A `match` statement.
#[derive(Debug)]
pub struct MatchStmt {
    pub value: Box<Expr>,
    pub clauses: Vec<MatchClause>,
}

/// One clause of a `match` statement.
#[derive(Debug)]
pub struct MatchClause {
    pub pattern: Pattern,
    pub body: Vec<Stmt>,
}

/// A pattern of a `match` clause.
#[derive(Debug, Clone)]
pub enum Pattern {
    Underscore,
    Literal(Literal),
}

/// One parameter of a function declaration.
#[derive(Debug)]
pub struct Parameter {
    pub name: String,
    pub default_value: Option<Expr>,
}

/// A top-level declaration of a class file.
#[derive(Debug)]
pub enum Decl {
    Const { name: Identifier, value: Box<Expr> },
    Var(VarStmt),
    Function(FunctionDecl),
    Constructor(ConstructorDecl),
    Enum(EnumDecl),
    /// Nested classes have no access to the outer scope and always
    /// inherit directly from the reference-counted base.
    InnerClass(Identifier, Vec<Decl>),
    /// Signals compile to instances of the minimal signal stub.
    Signal(Identifier),
}

/// A named function declaration.
#[derive(Debug)]
pub struct FunctionDecl {
    pub name: Identifier,
    pub params: Vec<Parameter>,
    pub is_static: bool,
    pub body: Vec<Stmt>,
}

/// A constructor declaration.
#[derive(Debug)]
pub struct ConstructorDecl {
    pub params: Vec<Parameter>,
    pub body: Vec<Stmt>,
}

/// An enum declaration.
#[derive(Debug)]
pub struct EnumDecl {
    pub name: Identifier,
    pub members: Vec<(Identifier, Option<Expr>)>,
}

/// One source file, compiled into one class record.
#[derive(Debug)]
pub struct SourceFile {
    pub extends_clause: Option<ExtendsClause>,
    pub class_name: Option<Identifier>,
    pub decls: Vec<Decl>,
}

/// The `extends` clause of a source file.
#[derive(Debug, Clone)]
pub enum ExtendsClause {
    Id(Identifier),
    Path(GdString),
}

/// Relies on `Rc::clone`: the clone is the same shared value.
#[verifier::external_body]
pub fn rc_clone<T>(v: &Rc<T>) -> (r: Rc<T>)
    ensures
        r == *v,
{
    Rc::clone(v)
}

} // verus!
