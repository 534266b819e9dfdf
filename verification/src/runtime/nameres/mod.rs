//! Static name resolution analysis for the Meerkat language compiler
//!
//! This module resolves and validates all variable usages in abstract
//! syntax trees, failing defensively if an unbound symbol is accessed
use crate::runtime::ast::{ActionStmt, Decl, Expr, Stmt, Value};
use crate::runtime::env::Env;
use crate::runtime::interner::{decimal, Symbol};
use crate::runtime::limits::MAX_SCOPE_DEPTH;
use crate::runtime::tt::Param;
use vstd::prelude::*;

pub mod free_names;
pub mod properties;

verus! {

/// Errors that can occur during name resolution
#[derive(Debug, Clone, Copy, PartialEq, Eq, Structural)]
pub enum Error {
    /// A variable was referenced but not declared in scope
    UnboundVariable {
        /// The unbound symbol
        name: Symbol,
    },
    /// The AST nesting depth exceeded the limit
    DepthLimit,
}

/// The message that describes an error.
pub open spec fn error_message(e: Error) -> Seq<char> {
    match e {
        Error::UnboundVariable { name } => "Unbound variable: "@ + decimal(name.0 as nat),
        Error::DepthLimit => "Depth limit exceeded"@,
    }
}

impl Error {
    /// The message that describes this error, as printing it shows it.
    pub fn to_string(&self) -> (s: String)
        ensures
            s@ == error_message(*self),
    {
        match self {
            Error::UnboundVariable { name } => {
                let mut s = String::from_str("Unbound variable: ");
                let id = name.to_string();
                s.append(id.as_str());
                s
            },
            Error::DepthLimit => String::from_str("Depth limit exceeded"),
        }
    }
}

// ---------------------------------------------------------------------
// What resolution means: the outcome of resolving each kind of node in a
// scope (the set of bound names) at a nesting depth. A sequence of nodes
// is resolved left to right and the first error is the outcome.
// ---------------------------------------------------------------------

/// The outcome of two resolution steps taken in order: the first error.
pub open spec fn first_err(r1: Result<(), Error>, r2: Result<(), Error>) -> Result<(), Error> {
    match r1 {
        Err(e) => Err(e),
        Ok(()) => r2,
    }
}

/// A use of `name`: an error unless `name` is bound in `env`.
pub open spec fn spec_use(env: Set<Symbol>, name: Symbol) -> Result<(), Error> {
    if env.contains(name) {
        Ok(())
    } else {
        Err(Error::UnboundVariable { name })
    }
}

/// The names that a parameter list binds.
pub open spec fn param_names(ps: Seq<Param>) -> Set<Symbol>
    decreases ps.len(),
{
    if ps.len() == 0 {
        Set::empty()
    } else {
        param_names(ps.drop_last()).insert(ps.last().name)
    }
}

/// The name that a declaration binds.
pub open spec fn decl_name(d: Decl) -> Symbol {
    match d {
        Decl::VarDecl { name, .. } => name,
        Decl::DefDecl { name, .. } => name,
        Decl::TableDecl { name, .. } => name,
    }
}

/// The names that a list of declarations binds.
pub open spec fn decl_names(ds: Seq<Decl>) -> Set<Symbol>
    decreases ds.len(),
{
    if ds.len() == 0 {
        Set::empty()
    } else {
        decl_names(ds.drop_last()).insert(decl_name(ds.last()))
    }
}

/// Resolution of an expression in `env` at depth `d`.
pub open spec fn spec_expr(e: Expr, env: Set<Symbol>, d: int) -> Result<(), Error>
    decreases e, 0int,
{
    match e {
        Expr::Literal { val } => spec_value(val, env, d),
        Expr::Html(template) => spec_exprs(template.exprs@, env, d),
        Expr::Variable { name } => spec_use(env, name),
        Expr::Tuple { val } => spec_exprs(val@, env, d),
        Expr::KeyVal { value, .. } => spec_expr(*value, env, d),
        Expr::Unop { expr, .. } => spec_expr(*expr, env, d),
        Expr::Binop { expr1, expr2, .. } => first_err(
            spec_expr(*expr1, env, d),
            spec_expr(*expr2, env, d),
        ),
        Expr::If { cond, expr1, expr2 } => first_err(
            spec_expr(*cond, env, d),
            first_err(spec_expr(*expr1, env, d), spec_expr(*expr2, env, d)),
        ),
        Expr::Func { params, body, .. } => spec_function_body(params@, *body, env, d),
        Expr::Call { func, args } => first_err(spec_expr(*func, env, d), spec_exprs(args@, env, d)),
        Expr::Action(stmts) => spec_block(stmts@, env, d),
        Expr::MemberAccess { service_name, .. } => spec_use(env, service_name),
        Expr::Select { table_name, where_clause, .. } => first_err(
            spec_use(env, table_name),
            spec_expr(*where_clause, env, d),
        ),
        Expr::Table { records, .. } => spec_exprs(records@, env, d),
        Expr::Fold { table_name, operation, identity, .. } => first_err(
            spec_use(env, table_name),
            first_err(spec_expr(*operation, env, d), spec_expr(*identity, env, d)),
        ),
        Expr::List(exprs) => spec_exprs(exprs@, env, d),
        Expr::Range { start, end } => first_err(spec_expr(*start, env, d), spec_expr(*end, env, d)),
    }
}

/// Resolution of a sequence of expressions, left to right.
pub open spec fn spec_exprs(es: Seq<Expr>, env: Set<Symbol>, d: int) -> Result<(), Error>
    decreases es, 0int,
{
    if es.len() == 0 {
        Ok(())
    } else {
        first_err(spec_expr(es[0], env, d), spec_exprs(es.drop_first(), env, d))
    }
}

/// Resolution of a value standing as a literal.
pub open spec fn spec_value(v: Value, env: Set<Symbol>, d: int) -> Result<(), Error>
    decreases v, 0int,
{
    match v {
        Value::Closure { params, body, .. } => spec_function_body(params@, *body, env, d),
        Value::ActionClosure { stmts, .. } => spec_block(stmts@, env, d),
        Value::List { vals } => spec_values(vals@, env, d),
        _ => Ok(()),
    }
}

/// Resolution of a sequence of values, left to right.
pub open spec fn spec_values(vs: Seq<Value>, env: Set<Symbol>, d: int) -> Result<(), Error>
    decreases vs, 0int,
{
    if vs.len() == 0 {
        Ok(())
    } else {
        first_err(spec_value(vs[0], env, d), spec_values(vs.drop_first(), env, d))
    }
}

/// Resolution of a function body: one scope deeper, in a nested scope
/// where the parameters are bound.
pub open spec fn spec_function_body(ps: Seq<Param>, body: Expr, env: Set<Symbol>, d: int) -> Result<
    (),
    Error,
>
    decreases body, 1int,
{
    if d >= MAX_SCOPE_DEPTH {
        Err(Error::DepthLimit)
    } else {
        spec_expr(body, env.union(param_names(ps)), d + 1)
    }
}

/// Resolution of an action block: one scope deeper, its statements in a
/// nested scope of their own.
pub open spec fn spec_block(ss: Seq<ActionStmt>, env: Set<Symbol>, d: int) -> Result<(), Error>
    decreases ss, 1int,
{
    if d >= MAX_SCOPE_DEPTH {
        Err(Error::DepthLimit)
    } else {
        spec_action_stmts(ss, env, d + 1).0
    }
}

/// Resolution of an action statement: its outcome, and the scope after it.
pub open spec fn spec_action_stmt(s: ActionStmt, env: Set<Symbol>, d: int) -> (
    Result<(), Error>,
    Set<Symbol>,
)
    decreases s, 0int,
{
    match s {
        ActionStmt::Let { name, expr, .. } => (
            spec_expr(expr, env, d),
            if spec_expr(expr, env, d) is Ok {
                env.insert(name)
            } else {
                env
            },
        ),
        ActionStmt::Expr(expr) => (spec_expr(expr, env, d), env),
        ActionStmt::Do(expr) => (spec_expr(expr, env, d), env),
        ActionStmt::Assert(expr, _) => (spec_expr(expr, env, d), env),
        ActionStmt::Assign { name, expr } => (first_err(spec_use(env, name), spec_expr(expr, env, d)), env),
        ActionStmt::Insert { row, table_name } => (
            first_err(spec_use(env, table_name), spec_expr(row, env, d)),
            env,
        ),
        ActionStmt::For { var, iterable, body } => (
            first_err(spec_expr(iterable, env, d), spec_action_stmts(body@, env.insert(var), d).0),
            env,
        ),
    }
}

/// Resolution of a sequence of action statements in order, each in the
/// scope that the ones before it leave; it stops at the first error.
pub open spec fn spec_action_stmts(ss: Seq<ActionStmt>, env: Set<Symbol>, d: int) -> (
    Result<(), Error>,
    Set<Symbol>,
)
    decreases ss, 0int,
{
    if ss.len() == 0 {
        (Ok(()), env)
    } else {
        let (r, env1) = spec_action_stmt(ss[0], env, d);
        if r is Err {
            (r, env1)
        } else {
            spec_action_stmts(ss.drop_first(), env1, d)
        }
    }
}

/// Resolution of the values of a list of declarations, in order.
pub open spec fn spec_decl_vals(ds: Seq<Decl>, env: Set<Symbol>, d: int) -> Result<(), Error>
    decreases ds.len(),
{
    if ds.len() == 0 {
        Ok(())
    } else {
        let r = match ds[0] {
            Decl::VarDecl { val, .. } => spec_expr(val, env, d),
            Decl::DefDecl { val, .. } => spec_expr(val, env, d),
            Decl::TableDecl { .. } => Ok(()),
        };
        first_err(r, spec_decl_vals(ds.drop_first(), env, d))
    }
}

/// Resolution of the declarations of a service: every declared name is
/// bound before any value is resolved, so declarations may refer to
/// those that come after them.
pub open spec fn spec_service(ds: Seq<Decl>, env: Set<Symbol>, d: int) -> Result<(), Error> {
    spec_decl_vals(ds, env.union(decl_names(ds)), d)
}

/// Resolution of a top-level statement: its outcome, and the scope after it.
/// Only imports, services and top-level `let`s add to the program scope;
/// the declarations of an update stay inside it.
pub open spec fn spec_stmt(s: Stmt, env: Set<Symbol>, d: int) -> (Result<(), Error>, Set<Symbol>) {
    match s {
        Stmt::ActionStmt(a) => spec_action_stmt(a, env, d),
        Stmt::Update { service_name, decls } => (
            first_err(spec_use(env, service_name), spec_service(decls@, env, d)),
            env,
        ),
        Stmt::Connect { .. } => (Ok(()), env),
        Stmt::Import { service_name, .. } => (Ok(()), env.insert(service_name)),
        Stmt::Service { name, decls } => (spec_service(decls@, env.insert(name), d), env.insert(name)),
        Stmt::Test { service_name, stmts } => (
            first_err(spec_use(env, service_name), spec_action_stmts(stmts@, env, d).0),
            env,
        ),
        Stmt::Watch { expr } => (spec_expr(expr, env, d), env),
    }
}

/// Resolution of a program in order, each statement in the scope that
/// the ones before it leave; it stops at the first error.
pub open spec fn spec_program(ss: Seq<Stmt>, env: Set<Symbol>, d: int) -> (
    Result<(), Error>,
    Set<Symbol>,
)
    decreases ss.len(),
{
    if ss.len() == 0 {
        (Ok(()), env)
    } else {
        let (r, env1) = spec_stmt(ss[0], env, d);
        if r is Err {
            (r, env1)
        } else {
            spec_program(ss.drop_first(), env1, d)
        }
    }
}

/// Resolution of a whole program from an empty root scope at depth zero.
pub open spec fn spec_resolve(ss: Seq<Stmt>) -> Result<(), Error> {
    spec_program(ss, Set::empty(), 0).0
}

/// The stateful struct that drives static name resolution traversal
#[derive(Default)]
pub struct Resolver {
    depth: usize,
}

impl View for Resolver {
    type V = int;

    /// The current nesting depth of scopes.
    closed spec fn view(&self) -> int {
        self.depth as int
    }
}

impl Resolver {
    /// Creates a new resolver instance, at depth zero
    pub fn new() -> (r: Resolver)
        ensures
            r@ == 0,
    {
        Resolver { depth: 0 }
    }

    /// The current nesting depth of scopes
    pub fn depth(&self) -> (d: usize)
        ensures
            d == self@,
    {
        self.depth
    }

    /// Resolves name bindings for a program represented as a slice
    /// of `Stmt`s, in the scope `env`
    pub fn resolve_program(&mut self, stmts: &[Stmt], env: &mut Env) -> (r: Result<(), Error>)
        ensures
            r == spec_program(stmts@, old(env)@, old(self)@).0,
            final(env)@ == spec_program(stmts@, old(env)@, old(self)@).1,
            final(self)@ == old(self)@,
    {
        let n = stmts.len();
        let mut i: usize = 0;
        assert(stmts@.skip(0) =~= stmts@);
        while i < n
            invariant
                n == stmts@.len(),
                i <= n,
                self@ == old(self)@,
                spec_program(stmts@, old(env)@, old(self)@) == spec_program(
                    stmts@.skip(i as int),
                    env@,
                    self@,
                ),
            decreases n - i,
        {
            assert(stmts@.skip(i as int)[0] == stmts@[i as int]);
            assert(stmts@.skip(i as int).drop_first() =~= stmts@.skip(i + 1));
            let r = self.resolve_stmt(&stmts[i], env);
            if r.is_err() {
                return r;
            }
            i = i + 1;
        }
        assert(stmts@.skip(n as int) =~= Seq::<Stmt>::empty());
        Ok(())
    }

    /// Resolves name bindings in a single statement
    ///
    /// A service binds its name in `env` and resolves its declarations in
    /// a nested scope; an update or a test resolves in a nested scope of
    /// its own, so that nothing it declares reaches `env`.
    pub fn resolve_stmt(&mut self, stmt: &Stmt, env: &mut Env) -> (r: Result<(), Error>)
        ensures
            r == spec_stmt(*stmt, old(env)@, old(self)@).0,
            final(env)@ == spec_stmt(*stmt, old(env)@, old(self)@).1,
            final(self)@ == old(self)@,
    {
        match stmt {
            Stmt::ActionStmt(action) => self.resolve_action_stmt(action, env),
            Stmt::Update { service_name, decls } => {
                if env.find(*service_name).is_none() {
                    return Err(Error::UnboundVariable { name: *service_name });
                }
                let mut update_env = Env::new(Some(env));
                self.resolve_service(decls, &mut update_env)
            },
            Stmt::Connect { .. } => Ok(()),
            Stmt::Import { service_name, .. } => {
                env.bind(*service_name);
                Ok(())
            },
            Stmt::Service { name, decls } => {
                env.bind(*name);
                let mut service_env = Env::new(Some(env));
                self.resolve_service(decls, &mut service_env)
            },
            Stmt::Test { service_name, stmts } => {
                if env.find(*service_name).is_none() {
                    return Err(Error::UnboundVariable { name: *service_name });
                }
                let mut test_env = Env::new(Some(env));
                self.resolve_action_stmts(stmts, &mut test_env)
            },
            Stmt::Watch { expr } => self.resolve_expr(expr, env),
        }
    }

    /// Resolves service-level declarations using a two-pass approach:
    /// every name is bound first, then every value is resolved
    fn resolve_service(&mut self, decls: &Vec<Decl>, env: &mut Env) -> (r: Result<(), Error>)
        ensures
            r == spec_service(decls@, old(env)@, old(self)@),
            final(env)@ == old(env)@.union(decl_names(decls@)),
            final(self)@ == old(self)@,
    {
        let n = decls.len();
        let mut i: usize = 0;
        while i < n
            invariant
                n == decls@.len(),
                i <= n,
                env@ == old(env)@.union(decl_names(decls@.take(i as int))),
            decreases n - i,
        {
            let name = match &decls[i] {
                Decl::VarDecl { name, .. } => *name,
                Decl::DefDecl { name, .. } => *name,
                Decl::TableDecl { name, .. } => *name,
            };
            env.bind(name);
            assert(decls@.take(i + 1).drop_last() =~= decls@.take(i as int));
            assert(env@ =~= old(env)@.union(decl_names(decls@.take(i + 1))));
            i = i + 1;
        }
        assert(decls@.take(n as int) =~= decls@);
        let mut j: usize = 0;
        assert(decls@.skip(0) =~= decls@);
        while j < n
            invariant
                n == decls@.len(),
                j <= n,
                self@ == old(self)@,
                env@ == old(env)@.union(decl_names(decls@)),
                spec_service(decls@, old(env)@, old(self)@) == spec_decl_vals(
                    decls@.skip(j as int),
                    env@,
                    self@,
                ),
            decreases n - j,
        {
            assert(decls@.skip(j as int)[0] == decls@[j as int]);
            assert(decls@.skip(j as int).drop_first() =~= decls@.skip(j + 1));
            match &decls[j] {
                Decl::VarDecl { val, .. } => {
                    let r = self.resolve_expr(val, env);
                    if r.is_err() {
                        return r;
                    }
                },
                Decl::DefDecl { val, .. } => {
                    let r = self.resolve_expr(val, env);
                    if r.is_err() {
                        return r;
                    }
                },
                Decl::TableDecl { .. } => {},
            }
            j = j + 1;
        }
        assert(decls@.skip(n as int) =~= Seq::<Decl>::empty());
        Ok(())
    }

    /// Resolves a list of action statements sequentially
    fn resolve_action_stmts(&mut self, stmts: &Vec<ActionStmt>, env: &mut Env) -> (r: Result<
        (),
        Error,
    >)
        ensures
            r == spec_action_stmts(stmts@, old(env)@, old(self)@).0,
            final(env)@ == spec_action_stmts(stmts@, old(env)@, old(self)@).1,
            final(self)@ == old(self)@,
        decreases stmts, 0int,
    {
        let n = stmts.len();
        let mut i: usize = 0;
        assert(stmts@.skip(0) =~= stmts@);
        while i < n
            invariant
                n == stmts@.len(),
                i <= n,
                self@ == old(self)@,
                spec_action_stmts(stmts@, old(env)@, old(self)@) == spec_action_stmts(
                    stmts@.skip(i as int),
                    env@,
                    self@,
                ),
            decreases n - i,
        {
            assert(stmts@.skip(i as int)[0] == stmts@[i as int]);
            assert(stmts@.skip(i as int).drop_first() =~= stmts@.skip(i + 1));
            let r = self.resolve_action_stmt(&stmts[i], env);
            if r.is_err() {
                return r;
            }
            i = i + 1;
        }
        assert(stmts@.skip(n as int) =~= Seq::<ActionStmt>::empty());
        Ok(())
    }

    /// Resolves a single action statement
    fn resolve_action_stmt(&mut self, stmt: &ActionStmt, env: &mut Env) -> (r: Result<(), Error>)
        ensures
            r == spec_action_stmt(*stmt, old(env)@, old(self)@).0,
            final(env)@ == spec_action_stmt(*stmt, old(env)@, old(self)@).1,
            final(self)@ == old(self)@,
        decreases stmt, 0int,
    {
        match stmt {
            ActionStmt::Let { name, expr, .. } => {
                let r = self.resolve_expr(expr, env);
                if r.is_err() {
                    return r;
                }
                env.bind(*name);
                r
            },
            ActionStmt::Expr(expr) => self.resolve_expr(expr, env),
            ActionStmt::Do(expr) => self.resolve_expr(expr, env),
            ActionStmt::Assert(expr, _) => self.resolve_expr(expr, env),
            ActionStmt::Assign { name, expr } => {
                if env.find(*name).is_none() {
                    return Err(Error::UnboundVariable { name: *name });
                }
                self.resolve_expr(expr, env)
            },
            ActionStmt::Insert { row, table_name } => {
                if env.find(*table_name).is_none() {
                    return Err(Error::UnboundVariable { name: *table_name });
                }
                self.resolve_expr(row, env)
            },
            ActionStmt::For { var, iterable, body } => {
                let r = self.resolve_expr(iterable, env);
                if r.is_err() {
                    return r;
                }
                let mut loop_env = Env::new(Some(env));
                loop_env.bind(*var);
                self.resolve_action_stmts(body, &mut loop_env)
            },
        }
    }

    /// Resolves variable names within an expression
    pub fn resolve_expr(&mut self, expr: &Expr, env: &Env) -> (r: Result<(), Error>)
        ensures
            r == spec_expr(*expr, env@, old(self)@),
            final(self)@ == old(self)@,
        decreases expr, 0int,
    {
        match expr {
            Expr::Literal { val } => self.resolve_value(val, env),
            Expr::Html(template) => self.resolve_exprs(&template.exprs, env),
            Expr::Variable { name } => {
                if env.find(*name).is_none() {
                    return Err(Error::UnboundVariable { name: *name });
                }
                Ok(())
            },
            Expr::Tuple { val } => self.resolve_exprs(val, env),
            Expr::KeyVal { value, .. } => self.resolve_expr(value, env),
            Expr::Unop { expr, .. } => self.resolve_expr(expr, env),
            Expr::Binop { expr1, expr2, .. } => {
                let r = self.resolve_expr(expr1, env);
                if r.is_err() {
                    return r;
                }
                self.resolve_expr(expr2, env)
            },
            Expr::If { cond, expr1, expr2 } => {
                let r = self.resolve_expr(cond, env);
                if r.is_err() {
                    return r;
                }
                let r = self.resolve_expr(expr1, env);
                if r.is_err() {
                    return r;
                }
                self.resolve_expr(expr2, env)
            },
            Expr::Func { params, body, .. } => self.resolve_function_body(params, body, env),
            Expr::Call { func, args } => {
                let r = self.resolve_expr(func, env);
                if r.is_err() {
                    return r;
                }
                self.resolve_exprs(args, env)
            },
            Expr::Action(stmts) => {
                assert(spec_expr(*expr, env@, self@) == spec_block(stmts@, env@, self@));
                if self.depth >= MAX_SCOPE_DEPTH {
                    return Err(Error::DepthLimit);
                }
                self.depth = self.depth + 1;
                let mut action_env = Env::new(Some(env));
                let res = self.resolve_action_stmts(stmts, &mut action_env);
                self.depth = self.depth - 1;
                res
            },
            Expr::MemberAccess { service_name, .. } => {
                if env.find(*service_name).is_none() {
                    return Err(Error::UnboundVariable { name: *service_name });
                }
                Ok(())
            },
            Expr::Select { table_name, where_clause, .. } => {
                if env.find(*table_name).is_none() {
                    return Err(Error::UnboundVariable { name: *table_name });
                }
                self.resolve_expr(where_clause, env)
            },
            Expr::Table { records, .. } => self.resolve_exprs(records, env),
            Expr::Fold { table_name, operation, identity, .. } => {
                if env.find(*table_name).is_none() {
                    return Err(Error::UnboundVariable { name: *table_name });
                }
                let r = self.resolve_expr(operation, env);
                if r.is_err() {
                    return r;
                }
                self.resolve_expr(identity, env)
            },
            Expr::List(exprs) => self.resolve_exprs(exprs, env),
            Expr::Range { start, end } => {
                let r = self.resolve_expr(start, env);
                if r.is_err() {
                    return r;
                }
                self.resolve_expr(end, env)
            },
        }
    }

    /// Resolves a sequence of expressions left to right, stopping at the
    /// first error
    fn resolve_exprs(&mut self, exprs: &Vec<Expr>, env: &Env) -> (r: Result<(), Error>)
        ensures
            r == spec_exprs(exprs@, env@, old(self)@),
            final(self)@ == old(self)@,
        decreases exprs, 0int,
    {
        let n = exprs.len();
        let mut i: usize = 0;
        assert(exprs@.skip(0) =~= exprs@);
        while i < n
            invariant
                n == exprs@.len(),
                i <= n,
                self@ == old(self)@,
                spec_exprs(exprs@, env@, old(self)@) == spec_exprs(
                    exprs@.skip(i as int),
                    env@,
                    self@,
                ),
            decreases n - i,
        {
            assert(exprs@.skip(i as int)[0] == exprs@[i as int]);
            assert(exprs@.skip(i as int).drop_first() =~= exprs@.skip(i + 1));
            let r = self.resolve_expr(&exprs[i], env);
            if r.is_err() {
                return r;
            }
            i = i + 1;
        }
        assert(exprs@.skip(n as int) =~= Seq::<Expr>::empty());
        Ok(())
    }

    /// Resolves variable names within a value
    fn resolve_value(&mut self, val: &Value, env: &Env) -> (r: Result<(), Error>)
        ensures
            r == spec_value(*val, env@, old(self)@),
            final(self)@ == old(self)@,
        decreases val, 0int,
    {
        match val {
            Value::Int { .. } => Ok(()),
            Value::Bool { .. } => Ok(()),
            Value::String { .. } => Ok(()),
            Value::Html(_) => Ok(()),
            Value::Closure { params, body, .. } => self.resolve_function_body(params, body, env),
            Value::ActionClosure { stmts, .. } => {
                assert(spec_value(*val, env@, self@) == spec_block(stmts@, env@, self@));
                if self.depth >= MAX_SCOPE_DEPTH {
                    return Err(Error::DepthLimit);
                }
                self.depth = self.depth + 1;
                let mut action_env = Env::new(Some(env));
                let res = self.resolve_action_stmts(stmts, &mut action_env);
                self.depth = self.depth - 1;
                res
            },
            Value::List { vals } => self.resolve_values(vals, env),
            Value::Range { .. } => Ok(()),
        }
    }

    /// Resolves a sequence of values left to right, stopping at the first
    /// error
    fn resolve_values(&mut self, vals: &Vec<Value>, env: &Env) -> (r: Result<(), Error>)
        ensures
            r == spec_values(vals@, env@, old(self)@),
            final(self)@ == old(self)@,
        decreases vals, 0int,
    {
        let n = vals.len();
        let mut i: usize = 0;
        assert(vals@.skip(0) =~= vals@);
        while i < n
            invariant
                n == vals@.len(),
                i <= n,
                self@ == old(self)@,
                spec_values(vals@, env@, old(self)@) == spec_values(
                    vals@.skip(i as int),
                    env@,
                    self@,
                ),
            decreases n - i,
        {
            assert(vals@.skip(i as int)[0] == vals@[i as int]);
            assert(vals@.skip(i as int).drop_first() =~= vals@.skip(i + 1));
            let r = self.resolve_value(&vals[i], env);
            if r.is_err() {
                return r;
            }
            i = i + 1;
        }
        assert(vals@.skip(n as int) =~= Seq::<Value>::empty());
        Ok(())
    }

    /// Resolves the body of a function or closure within a new scope
    fn resolve_function_body(&mut self, params: &Vec<Param>, body: &Expr, env: &Env) -> (r: Result<
        (),
        Error,
    >)
        ensures
            r == spec_function_body(params@, *body, env@, old(self)@),
            final(self)@ == old(self)@,
        decreases body, 1int,
    {
        if self.depth >= MAX_SCOPE_DEPTH {
            return Err(Error::DepthLimit);
        }
        self.depth = self.depth + 1;
        let mut inner_env = Env::new(Some(env));
        let n = params.len();
        let mut i: usize = 0;
        while i < n
            invariant
                n == params@.len(),
                i <= n,
                inner_env@ == env@.union(param_names(params@.take(i as int))),
            decreases n - i,
        {
            inner_env.bind(params[i].name);
            assert(params@.take(i + 1).drop_last() =~= params@.take(i as int));
            assert(inner_env@ =~= env@.union(param_names(params@.take(i + 1))));
            i = i + 1;
        }
        assert(params@.take(n as int) =~= params@);
        let res = self.resolve_expr(body, &inner_env);
        self.depth = self.depth - 1;
        res
    }
}

/// The public entry point to resolve name bindings in a program
pub fn resolve(stmts: &[Stmt]) -> (r: Result<(), Error>)
    ensures
        r == spec_resolve(stmts@),
{
    let mut resolver = Resolver::new();
    let mut root_env = Env::new(None);
    resolver.resolve_program(stmts, &mut root_env)
}

} // verus!
