//! Abstract syntax trees of the Meerkat language.
use crate::runtime::html::{Html, HtmlTemplate};
use crate::runtime::interner::Symbol;
use crate::net::ServiceNetId;
use crate::runtime::tt::{Param, Type};
use vstd::prelude::*;

verus! {

/// Binary operators
#[derive(Debug, Clone, Copy, PartialEq, Eq)]
pub enum BinOp {
    Add,
    Sub,
    Mul,
    Div,
    Eq,
    Lt,
    Gt,
    And,
    Or,
}

/// Unary operators
#[derive(Debug, Clone, Copy, PartialEq, Eq)]
pub enum UnOp {
    Neg,
    Not,
}

/// Runtime values, which may also stand in a program as literals.
#[derive(Debug, PartialEq)]
pub enum Value {
    Int { val: i64 },
    Bool { val: bool },
    String { val: String },
    Html(Html),
    /// A function value with the names it captured
    Closure {
        params: Vec<Param>,
        body: Box<Expr>,
        env: Vec<(Symbol, Value)>,
        service_name: Symbol,
        return_ty: Option<Type>,
    },
    /// An action value with the names it captured
    ActionClosure {
        stmts: Vec<ActionStmt>,
        env: Vec<(Symbol, Value)>,
        service_net_id: ServiceNetId,
    },
    List { vals: Vec<Value> },
    Range { start: i64, end: i64 },
}

/// Expressions
#[derive(Debug, PartialEq)]
pub enum Expr {
    Literal { val: Value },
    Html(HtmlTemplate),
    Variable { name: Symbol },
    Tuple { val: Vec<Expr> },
    KeyVal { name: Symbol, value: Box<Expr> },
    Unop { op: UnOp, expr: Box<Expr> },
    Binop { op: BinOp, expr1: Box<Expr>, expr2: Box<Expr> },
    If { cond: Box<Expr>, expr1: Box<Expr>, expr2: Box<Expr> },
    Func { params: Vec<Param>, body: Box<Expr>, return_ty: Option<Type> },
    Call { func: Box<Expr>, args: Vec<Expr> },
    /// An action block: a sequence of statements in a scope of its own
    Action(Vec<ActionStmt>),
    MemberAccess { service_name: Symbol, member_name: Symbol },
    Select { table_name: Symbol, column_names: Vec<Symbol>, where_clause: Box<Expr> },
    Table { schema: Vec<(Symbol, Type)>, records: Vec<Expr> },
    Fold { table_name: Symbol, column_name: Symbol, operation: Box<Expr>, identity: Box<Expr> },
    List(Vec<Expr>),
    Range { start: Box<Expr>, end: Box<Expr> },
}

/// Statements inside action blocks and tests
#[derive(Debug, PartialEq)]
pub enum ActionStmt {
    Let { name: Symbol, ty: Option<Type>, expr: Expr },
    Expr(Expr),
    Do(Expr),
    Assert(Expr, String),
    Assign { name: Symbol, expr: Expr },
    Insert { row: Expr, table_name: Symbol },
    For { var: Symbol, iterable: Expr, body: Vec<ActionStmt> },
}

/// Declarations inside a service
#[derive(Debug, PartialEq)]
pub enum Decl {
    VarDecl { name: Symbol, ty: Option<Type>, val: Expr },
    DefDecl { name: Symbol, ty: Option<Type>, val: Expr, is_pub: bool },
    TableDecl { name: Symbol, fields: Vec<(Symbol, Type)> },
}

/// Top-level statements of a program
#[derive(Debug, PartialEq)]
pub enum Stmt {
    ActionStmt(ActionStmt),
    Update { service_name: Symbol, decls: Vec<Decl> },
    Connect { path: String, addr: String },
    Import { path: String, service_name: Symbol },
    Service { name: Symbol, decls: Vec<Decl> },
    Test { service_name: Symbol, stmts: Vec<ActionStmt> },
    Watch { expr: Expr },
}

} // verus!
