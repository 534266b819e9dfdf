//! Properties of name resolution that hold of every program.
use crate::runtime::ast::{ActionStmt, Decl, Expr, Stmt, Value};
use crate::runtime::interner::Symbol;
use crate::runtime::limits::MAX_SCOPE_DEPTH;
use crate::runtime::tt::Param;
use crate::runtime::nameres::{
    decl_names, first_err, param_names, spec_block, spec_function_body, spec_value, spec_values, spec_action_stmt, spec_action_stmts, spec_decl_vals, spec_expr,
    spec_exprs, spec_program, spec_service, spec_stmt, Error,
};
use vstd::prelude::*;

verus! {

/// Taking the first error is associative.
proof fn lemma_first_err_assoc(x: Result<(), Error>, y: Result<(), Error>, z: Result<(), Error>)
    ensures
        first_err(x, first_err(y, z)) == first_err(first_err(x, y), z),
{
}

/// Resolving a sequence of expressions that is the concatenation of two
/// gives the first error of resolving each part.
pub proof fn lemma_exprs_concat(a: Seq<Expr>, b: Seq<Expr>, env: Set<Symbol>, d: int)
    ensures
        spec_exprs(a + b, env, d) == first_err(spec_exprs(a, env, d), spec_exprs(b, env, d)),
    decreases a.len(),
{
    if a.len() == 0 {
        assert(a + b =~= b);
    } else {
        assert((a + b)[0] == a[0]);
        assert((a + b).drop_first() =~= a.drop_first() + b);
        lemma_exprs_concat(a.drop_first(), b, env, d);
        lemma_first_err_assoc(
            spec_expr(a[0], env, d),
            spec_exprs(a.drop_first(), env, d),
            spec_exprs(b, env, d),
        );
    }
}

/// Resolving the values of a list of declarations that is the
/// concatenation of two gives the first error of resolving each part.
pub proof fn lemma_decl_vals_concat(a: Seq<Decl>, b: Seq<Decl>, env: Set<Symbol>, d: int)
    ensures
        spec_decl_vals(a + b, env, d) == first_err(
            spec_decl_vals(a, env, d),
            spec_decl_vals(b, env, d),
        ),
    decreases a.len(),
{
    if a.len() == 0 {
        assert(a + b =~= b);
    } else {
        assert((a + b)[0] == a[0]);
        assert((a + b).drop_first() =~= a.drop_first() + b);
        lemma_decl_vals_concat(a.drop_first(), b, env, d);
        let r = match a[0] {
            Decl::VarDecl { val, .. } => spec_expr(val, env, d),
            Decl::DefDecl { val, .. } => spec_expr(val, env, d),
            Decl::TableDecl { .. } => Ok(()),
        };
        lemma_first_err_assoc(r, spec_decl_vals(a.drop_first(), env, d), spec_decl_vals(b, env, d));
    }
}

/// The names declared by a concatenation of declarations are those of
/// each part.
pub proof fn lemma_decl_names_concat(a: Seq<Decl>, b: Seq<Decl>)
    ensures
        decl_names(a + b) == decl_names(a).union(decl_names(b)),
    decreases b.len(),
{
    if b.len() == 0 {
        assert(a + b =~= a);
        assert(decl_names(a).union(decl_names(b)) =~= decl_names(a));
    } else {
        assert((a + b).drop_last() =~= a + b.drop_last());
        assert((a + b).last() == b.last());
        lemma_decl_names_concat(a, b.drop_last());
        assert(decl_names(a + b) =~= decl_names(a).union(decl_names(b)));
    }
}

/// Hoisting: whether the declarations of a service resolve does not
/// depend on their order. Swapping two groups of declarations turns
/// success into success and failure into failure.
pub proof fn lemma_service_order_independent(
    a: Seq<Decl>,
    b: Seq<Decl>,
    env: Set<Symbol>,
    d: int,
)
    ensures
        spec_service(a + b, env, d) is Ok <==> spec_service(b + a, env, d) is Ok,
{
    lemma_decl_names_concat(a, b);
    lemma_decl_names_concat(b, a);
    let scope = env.union(decl_names(a + b));
    assert(decl_names(a + b) =~= decl_names(b + a));
    lemma_decl_vals_concat(a, b, scope, d);
    lemma_decl_vals_concat(b, a, scope, d);
}

/// Resolving a sequence of action statements that is the concatenation
/// of two resolves the first part, then, unless it failed, the second
/// part in the scope that the first leaves.
pub proof fn lemma_action_stmts_concat(
    a: Seq<ActionStmt>,
    b: Seq<ActionStmt>,
    env: Set<Symbol>,
    d: int,
)
    ensures
        spec_action_stmts(a + b, env, d) == ({
            let (r, env1) = spec_action_stmts(a, env, d);
            if r is Err {
                (r, env1)
            } else {
                spec_action_stmts(b, env1, d)
            }
        }),
    decreases a.len(),
{
    if a.len() == 0 {
        assert(a + b =~= b);
    } else {
        assert((a + b)[0] == a[0]);
        assert((a + b).drop_first() =~= a.drop_first() + b);
        let (r, env1) = spec_action_stmt(a[0], env, d);
        if r is Ok {
            lemma_action_stmts_concat(a.drop_first(), b, env1, d);
        }
    }
}

/// Resolving a program that is the concatenation of two resolves the
/// first part, then, unless it failed, the second part in the scope that
/// the first leaves: resolving a program piece by piece in one scope is
/// resolving it whole.
pub proof fn lemma_program_concat(a: Seq<Stmt>, b: Seq<Stmt>, env: Set<Symbol>, d: int)
    ensures
        spec_program(a + b, env, d) == ({
            let (r, env1) = spec_program(a, env, d);
            if r is Err {
                (r, env1)
            } else {
                spec_program(b, env1, d)
            }
        }),
    decreases a.len(),
{
    if a.len() == 0 {
        assert(a + b =~= b);
    } else {
        assert((a + b)[0] == a[0]);
        assert((a + b).drop_first() =~= a.drop_first() + b);
        let (r, env1) = spec_stmt(a[0], env, d);
        if r is Ok {
            lemma_program_concat(a.drop_first(), b, env1, d);
        }
    }
}

// ---------------------------------------------------------------------
// Weakening: a node that resolves in a scope resolves in every larger
// scope, and at every shallower depth.
// ---------------------------------------------------------------------

/// Adding names to the scope, or resolving at a shallower depth, never
/// turns the successful resolution of an expression into a failure.
pub proof fn lemma_expr_weaken(e: Expr, env: Set<Symbol>, env2: Set<Symbol>, d: int, d2: int)
    requires
        env.subset_of(env2),
        d2 <= d,
        spec_expr(e, env, d) is Ok,
    ensures
        spec_expr(e, env2, d2) is Ok,
    decreases e, 0int,
{
    match e {
        Expr::Literal { val } => lemma_value_weaken(val, env, env2, d, d2),
        Expr::Html(template) => lemma_exprs_weaken(template.exprs@, env, env2, d, d2),
        Expr::Variable { .. } => {},
        Expr::Tuple { val } => lemma_exprs_weaken(val@, env, env2, d, d2),
        Expr::KeyVal { value, .. } => lemma_expr_weaken(*value, env, env2, d, d2),
        Expr::Unop { expr, .. } => lemma_expr_weaken(*expr, env, env2, d, d2),
        Expr::Binop { expr1, expr2, .. } => {
            lemma_expr_weaken(*expr1, env, env2, d, d2);
            lemma_expr_weaken(*expr2, env, env2, d, d2);
        },
        Expr::If { cond, expr1, expr2 } => {
            lemma_expr_weaken(*cond, env, env2, d, d2);
            lemma_expr_weaken(*expr1, env, env2, d, d2);
            lemma_expr_weaken(*expr2, env, env2, d, d2);
        },
        Expr::Func { params, body, .. } => lemma_function_body_weaken(
            params@,
            *body,
            env,
            env2,
            d,
            d2,
        ),
        Expr::Call { func, args } => {
            lemma_expr_weaken(*func, env, env2, d, d2);
            lemma_exprs_weaken(args@, env, env2, d, d2);
        },
        Expr::Action(stmts) => lemma_block_weaken(stmts@, env, env2, d, d2),
        Expr::MemberAccess { .. } => {},
        Expr::Select { where_clause, .. } => lemma_expr_weaken(*where_clause, env, env2, d, d2),
        Expr::Table { records, .. } => lemma_exprs_weaken(records@, env, env2, d, d2),
        Expr::Fold { operation, identity, .. } => {
            lemma_expr_weaken(*operation, env, env2, d, d2);
            lemma_expr_weaken(*identity, env, env2, d, d2);
        },
        Expr::List(exprs) => lemma_exprs_weaken(exprs@, env, env2, d, d2),
        Expr::Range { start, end } => {
            lemma_expr_weaken(*start, env, env2, d, d2);
            lemma_expr_weaken(*end, env, env2, d, d2);
        },
    }
}

/// Weakening for a sequence of expressions.
pub proof fn lemma_exprs_weaken(es: Seq<Expr>, env: Set<Symbol>, env2: Set<Symbol>, d: int, d2: int)
    requires
        env.subset_of(env2),
        d2 <= d,
        spec_exprs(es, env, d) is Ok,
    ensures
        spec_exprs(es, env2, d2) is Ok,
    decreases es, 0int,
{
    if es.len() > 0 {
        lemma_expr_weaken(es[0], env, env2, d, d2);
        lemma_exprs_weaken(es.drop_first(), env, env2, d, d2);
    }
}

/// Weakening for a value standing as a literal.
pub proof fn lemma_value_weaken(v: Value, env: Set<Symbol>, env2: Set<Symbol>, d: int, d2: int)
    requires
        env.subset_of(env2),
        d2 <= d,
        spec_value(v, env, d) is Ok,
    ensures
        spec_value(v, env2, d2) is Ok,
    decreases v, 0int,
{
    match v {
        Value::Closure { params, body, .. } => lemma_function_body_weaken(
            params@,
            *body,
            env,
            env2,
            d,
            d2,
        ),
        Value::ActionClosure { stmts, .. } => lemma_block_weaken(stmts@, env, env2, d, d2),
        Value::List { vals } => lemma_values_weaken(vals@, env, env2, d, d2),
        _ => {},
    }
}

/// Weakening for a sequence of values.
pub proof fn lemma_values_weaken(vs: Seq<Value>, env: Set<Symbol>, env2: Set<Symbol>, d: int, d2: int)
    requires
        env.subset_of(env2),
        d2 <= d,
        spec_values(vs, env, d) is Ok,
    ensures
        spec_values(vs, env2, d2) is Ok,
    decreases vs, 0int,
{
    if vs.len() > 0 {
        lemma_value_weaken(vs[0], env, env2, d, d2);
        lemma_values_weaken(vs.drop_first(), env, env2, d, d2);
    }
}

/// Weakening for a function body.
pub proof fn lemma_function_body_weaken(
    ps: Seq<Param>,
    body: Expr,
    env: Set<Symbol>,
    env2: Set<Symbol>,
    d: int,
    d2: int,
)
    requires
        env.subset_of(env2),
        d2 <= d,
        spec_function_body(ps, body, env, d) is Ok,
    ensures
        spec_function_body(ps, body, env2, d2) is Ok,
    decreases body, 1int,
{
    assert(env.union(param_names(ps)).subset_of(env2.union(param_names(ps))));
    lemma_expr_weaken(body, env.union(param_names(ps)), env2.union(param_names(ps)), d + 1, d2 + 1);
}

/// Weakening for an action block.
pub proof fn lemma_block_weaken(ss: Seq<ActionStmt>, env: Set<Symbol>, env2: Set<Symbol>, d: int, d2: int)
    requires
        env.subset_of(env2),
        d2 <= d,
        spec_block(ss, env, d) is Ok,
    ensures
        spec_block(ss, env2, d2) is Ok,
    decreases ss, 1int,
{
    lemma_action_stmts_weaken(ss, env, env2, d + 1, d2 + 1);
}

/// Weakening for an action statement; the scope it leaves stays within
/// the scope it leaves from the larger scope.
pub proof fn lemma_action_stmt_weaken(
    s: ActionStmt,
    env: Set<Symbol>,
    env2: Set<Symbol>,
    d: int,
    d2: int,
)
    requires
        env.subset_of(env2),
        d2 <= d,
        spec_action_stmt(s, env, d).0 is Ok,
    ensures
        spec_action_stmt(s, env2, d2).0 is Ok,
        spec_action_stmt(s, env, d).1.subset_of(spec_action_stmt(s, env2, d2).1),
    decreases s, 0int,
{
    match s {
        ActionStmt::Let { name, expr, .. } => {
            lemma_expr_weaken(expr, env, env2, d, d2);
            assert(env.insert(name).subset_of(env2.insert(name)));
        },
        ActionStmt::Expr(expr) => lemma_expr_weaken(expr, env, env2, d, d2),
        ActionStmt::Do(expr) => lemma_expr_weaken(expr, env, env2, d, d2),
        ActionStmt::Assert(expr, _) => lemma_expr_weaken(expr, env, env2, d, d2),
        ActionStmt::Assign { expr, .. } => lemma_expr_weaken(expr, env, env2, d, d2),
        ActionStmt::Insert { row, .. } => lemma_expr_weaken(row, env, env2, d, d2),
        ActionStmt::For { var, iterable, body } => {
            lemma_expr_weaken(iterable, env, env2, d, d2);
            assert(env.insert(var).subset_of(env2.insert(var)));
            lemma_action_stmts_weaken(body@, env.insert(var), env2.insert(var), d, d2);
        },
    }
}

/// Weakening for a sequence of action statements.
pub proof fn lemma_action_stmts_weaken(
    ss: Seq<ActionStmt>,
    env: Set<Symbol>,
    env2: Set<Symbol>,
    d: int,
    d2: int,
)
    requires
        env.subset_of(env2),
        d2 <= d,
        spec_action_stmts(ss, env, d).0 is Ok,
    ensures
        spec_action_stmts(ss, env2, d2).0 is Ok,
        spec_action_stmts(ss, env, d).1.subset_of(spec_action_stmts(ss, env2, d2).1),
    decreases ss, 0int,
{
    if ss.len() > 0 {
        lemma_action_stmt_weaken(ss[0], env, env2, d, d2);
        lemma_action_stmts_weaken(
            ss.drop_first(),
            spec_action_stmt(ss[0], env, d).1,
            spec_action_stmt(ss[0], env2, d2).1,
            d,
            d2,
        );
    }
}

/// Weakening for the values of a list of declarations.
pub proof fn lemma_decl_vals_weaken(ds: Seq<Decl>, env: Set<Symbol>, env2: Set<Symbol>, d: int, d2: int)
    requires
        env.subset_of(env2),
        d2 <= d,
        spec_decl_vals(ds, env, d) is Ok,
    ensures
        spec_decl_vals(ds, env2, d2) is Ok,
    decreases ds.len(),
{
    if ds.len() > 0 {
        match ds[0] {
            Decl::VarDecl { val, .. } => lemma_expr_weaken(val, env, env2, d, d2),
            Decl::DefDecl { val, .. } => lemma_expr_weaken(val, env, env2, d, d2),
            Decl::TableDecl { .. } => {},
        }
        lemma_decl_vals_weaken(ds.drop_first(), env, env2, d, d2);
    }
}

/// Weakening for the declarations of a service.
pub proof fn lemma_service_weaken(ds: Seq<Decl>, env: Set<Symbol>, env2: Set<Symbol>, d: int, d2: int)
    requires
        env.subset_of(env2),
        d2 <= d,
        spec_service(ds, env, d) is Ok,
    ensures
        spec_service(ds, env2, d2) is Ok,
{
    assert(env.union(decl_names(ds)).subset_of(env2.union(decl_names(ds))));
    lemma_decl_vals_weaken(ds, env.union(decl_names(ds)), env2.union(decl_names(ds)), d, d2);
}

/// Weakening for a top-level statement.
pub proof fn lemma_stmt_weaken(s: Stmt, env: Set<Symbol>, env2: Set<Symbol>, d: int, d2: int)
    requires
        env.subset_of(env2),
        d2 <= d,
        spec_stmt(s, env, d).0 is Ok,
    ensures
        spec_stmt(s, env2, d2).0 is Ok,
        spec_stmt(s, env, d).1.subset_of(spec_stmt(s, env2, d2).1),
{
    match s {
        Stmt::ActionStmt(a) => lemma_action_stmt_weaken(a, env, env2, d, d2),
        Stmt::Update { decls, .. } => lemma_service_weaken(decls@, env, env2, d, d2),
        Stmt::Connect { .. } => {},
        Stmt::Import { service_name, .. } => {
            assert(env.insert(service_name).subset_of(env2.insert(service_name)));
        },
        Stmt::Service { name, decls } => {
            assert(env.insert(name).subset_of(env2.insert(name)));
            lemma_service_weaken(decls@, env.insert(name), env2.insert(name), d, d2);
        },
        Stmt::Test { stmts, .. } => lemma_action_stmts_weaken(stmts@, env, env2, d, d2),
        Stmt::Watch { expr } => lemma_expr_weaken(expr, env, env2, d, d2),
    }
}

/// Weakening for programs: a program that resolves in a scope resolves
/// in every scope that binds more names, and at every shallower depth.
pub proof fn lemma_program_weaken(ss: Seq<Stmt>, env: Set<Symbol>, env2: Set<Symbol>, d: int, d2: int)
    requires
        env.subset_of(env2),
        d2 <= d,
        spec_program(ss, env, d).0 is Ok,
    ensures
        spec_program(ss, env2, d2).0 is Ok,
        spec_program(ss, env, d).1.subset_of(spec_program(ss, env2, d2).1),
    decreases ss.len(),
{
    if ss.len() > 0 {
        lemma_stmt_weaken(ss[0], env, env2, d, d2);
        lemma_program_weaken(
            ss.drop_first(),
            spec_stmt(ss[0], env, d).1,
            spec_stmt(ss[0], env2, d2).1,
            d,
            d2,
        );
    }
}

// ---------------------------------------------------------------------
// Scopes: what a statement adds to the scope it is resolved in.
// ---------------------------------------------------------------------

/// The name that a top-level statement may add to the program scope.
pub open spec fn stmt_binding(s: Stmt) -> Option<Symbol> {
    match s {
        Stmt::Import { service_name, .. } => Some(service_name),
        Stmt::Service { name, .. } => Some(name),
        Stmt::ActionStmt(ActionStmt::Let { name, .. }) => Some(name),
        _ => None,
    }
}

/// Isolation: a top-level statement leaves the program scope as it was,
/// or adds the one name that it declares (an import, a service, a
/// top-level `let`). The declarations of services and updates, the
/// bindings of tests, loops, blocks and functions never reach it.
pub proof fn lemma_stmt_scope(s: Stmt, env: Set<Symbol>, d: int)
    ensures
        match stmt_binding(s) {
            None => spec_stmt(s, env, d).1 == env,
            Some(n) => spec_stmt(s, env, d).1 == env || spec_stmt(s, env, d).1 == env.insert(n),
        },
{
}

/// An action statement only ever adds names to the scope.
pub proof fn lemma_action_stmt_grows(s: ActionStmt, env: Set<Symbol>, d: int)
    ensures
        env.subset_of(spec_action_stmt(s, env, d).1),
{
}

/// A sequence of action statements only ever adds names to the scope.
pub proof fn lemma_action_stmts_grows(ss: Seq<ActionStmt>, env: Set<Symbol>, d: int)
    ensures
        env.subset_of(spec_action_stmts(ss, env, d).1),
    decreases ss.len(),
{
    if ss.len() > 0 {
        lemma_action_stmt_grows(ss[0], env, d);
        lemma_action_stmts_grows(ss.drop_first(), spec_action_stmt(ss[0], env, d).1, d);
    }
}

/// A program only ever adds names to the scope.
pub proof fn lemma_program_grows(ss: Seq<Stmt>, env: Set<Symbol>, d: int)
    ensures
        env.subset_of(spec_program(ss, env, d).1),
    decreases ss.len(),
{
    if ss.len() > 0 {
        lemma_stmt_scope(ss[0], env, d);
        lemma_program_grows(ss.drop_first(), spec_stmt(ss[0], env, d).1, d);
    }
}

// ---------------------------------------------------------------------
// Soundness of the reported error: a name reported as unbound is not
// bound in the scope that resolution started from.
// ---------------------------------------------------------------------

/// A name that resolving an expression reports as unbound is not bound in
/// its scope.
pub proof fn lemma_expr_unbound(e: Expr, env: Set<Symbol>, d: int, name: Symbol)
    requires
        spec_expr(e, env, d) == Err::<(), Error>(Error::UnboundVariable { name }),
    ensures
        !env.contains(name),
    decreases e, 0int,
{
    match e {
        Expr::Literal { val } => lemma_value_unbound(val, env, d, name),
        Expr::Html(template) => lemma_exprs_unbound(template.exprs@, env, d, name),
        Expr::Variable { .. } => {},
        Expr::Tuple { val } => lemma_exprs_unbound(val@, env, d, name),
        Expr::KeyVal { value, .. } => lemma_expr_unbound(*value, env, d, name),
        Expr::Unop { expr, .. } => lemma_expr_unbound(*expr, env, d, name),
        Expr::Binop { expr1, expr2, .. } => {
            if spec_expr(*expr1, env, d) is Err {
                lemma_expr_unbound(*expr1, env, d, name);
            } else {
                lemma_expr_unbound(*expr2, env, d, name);
            }
        },
        Expr::If { cond, expr1, expr2 } => {
            if spec_expr(*cond, env, d) is Err {
                lemma_expr_unbound(*cond, env, d, name);
            } else if spec_expr(*expr1, env, d) is Err {
                lemma_expr_unbound(*expr1, env, d, name);
            } else {
                lemma_expr_unbound(*expr2, env, d, name);
            }
        },
        Expr::Func { params, body, .. } => lemma_function_body_unbound(params@, *body, env, d, name),
        Expr::Call { func, args } => {
            if spec_expr(*func, env, d) is Err {
                lemma_expr_unbound(*func, env, d, name);
            } else {
                lemma_exprs_unbound(args@, env, d, name);
            }
        },
        Expr::Action(stmts) => lemma_block_unbound(stmts@, env, d, name),
        Expr::MemberAccess { .. } => {},
        Expr::Select { table_name, where_clause, .. } => {
            if env.contains(table_name) {
                lemma_expr_unbound(*where_clause, env, d, name);
            }
        },
        Expr::Table { records, .. } => lemma_exprs_unbound(records@, env, d, name),
        Expr::Fold { table_name, operation, identity, .. } => {
            if env.contains(table_name) {
                if spec_expr(*operation, env, d) is Err {
                    lemma_expr_unbound(*operation, env, d, name);
                } else {
                    lemma_expr_unbound(*identity, env, d, name);
                }
            }
        },
        Expr::List(exprs) => lemma_exprs_unbound(exprs@, env, d, name),
        Expr::Range { start, end } => {
            if spec_expr(*start, env, d) is Err {
                lemma_expr_unbound(*start, env, d, name);
            } else {
                lemma_expr_unbound(*end, env, d, name);
            }
        },
    }
}

/// Soundness of the reported name for a sequence of expressions.
pub proof fn lemma_exprs_unbound(es: Seq<Expr>, env: Set<Symbol>, d: int, name: Symbol)
    requires
        spec_exprs(es, env, d) == Err::<(), Error>(Error::UnboundVariable { name }),
    ensures
        !env.contains(name),
    decreases es, 0int,
{
    if spec_expr(es[0], env, d) is Err {
        lemma_expr_unbound(es[0], env, d, name);
    } else {
        lemma_exprs_unbound(es.drop_first(), env, d, name);
    }
}

/// Soundness of the reported name for a value.
pub proof fn lemma_value_unbound(v: Value, env: Set<Symbol>, d: int, name: Symbol)
    requires
        spec_value(v, env, d) == Err::<(), Error>(Error::UnboundVariable { name }),
    ensures
        !env.contains(name),
    decreases v, 0int,
{
    match v {
        Value::Closure { params, body, .. } => lemma_function_body_unbound(params@, *body, env, d, name),
        Value::ActionClosure { stmts, .. } => lemma_block_unbound(stmts@, env, d, name),
        Value::List { vals } => lemma_values_unbound(vals@, env, d, name),
        _ => {},
    }
}

/// Soundness of the reported name for a sequence of values.
pub proof fn lemma_values_unbound(vs: Seq<Value>, env: Set<Symbol>, d: int, name: Symbol)
    requires
        spec_values(vs, env, d) == Err::<(), Error>(Error::UnboundVariable { name }),
    ensures
        !env.contains(name),
    decreases vs, 0int,
{
    if spec_value(vs[0], env, d) is Err {
        lemma_value_unbound(vs[0], env, d, name);
    } else {
        lemma_values_unbound(vs.drop_first(), env, d, name);
    }
}

/// Soundness of the reported name for a function body.
pub proof fn lemma_function_body_unbound(ps: Seq<Param>, body: Expr, env: Set<Symbol>, d: int, name: Symbol)
    requires
        spec_function_body(ps, body, env, d) == Err::<(), Error>(Error::UnboundVariable { name }),
    ensures
        !env.contains(name),
    decreases body, 1int,
{
    lemma_expr_unbound(body, env.union(param_names(ps)), d + 1, name);
}

/// Soundness of the reported name for an action block.
pub proof fn lemma_block_unbound(ss: Seq<ActionStmt>, env: Set<Symbol>, d: int, name: Symbol)
    requires
        spec_block(ss, env, d) == Err::<(), Error>(Error::UnboundVariable { name }),
    ensures
        !env.contains(name),
    decreases ss, 1int,
{
    lemma_action_stmts_unbound(ss, env, d + 1, name);
}

/// Soundness of the reported name for an action statement.
pub proof fn lemma_action_stmt_unbound(s: ActionStmt, env: Set<Symbol>, d: int, name: Symbol)
    requires
        spec_action_stmt(s, env, d).0 == Err::<(), Error>(Error::UnboundVariable { name }),
    ensures
        !env.contains(name),
    decreases s, 0int,
{
    match s {
        ActionStmt::Let { expr, .. } => lemma_expr_unbound(expr, env, d, name),
        ActionStmt::Expr(expr) => lemma_expr_unbound(expr, env, d, name),
        ActionStmt::Do(expr) => lemma_expr_unbound(expr, env, d, name),
        ActionStmt::Assert(expr, _) => lemma_expr_unbound(expr, env, d, name),
        ActionStmt::Assign { name: target, expr } => {
            if env.contains(target) {
                lemma_expr_unbound(expr, env, d, name);
            }
        },
        ActionStmt::Insert { row, table_name } => {
            if env.contains(table_name) {
                lemma_expr_unbound(row, env, d, name);
            }
        },
        ActionStmt::For { var, iterable, body } => {
            if spec_expr(iterable, env, d) is Err {
                lemma_expr_unbound(iterable, env, d, name);
            } else {
                lemma_action_stmts_unbound(body@, env.insert(var), d, name);
            }
        },
    }
}

/// Soundness of the reported name for a sequence of action statements.
pub proof fn lemma_action_stmts_unbound(ss: Seq<ActionStmt>, env: Set<Symbol>, d: int, name: Symbol)
    requires
        spec_action_stmts(ss, env, d).0 == Err::<(), Error>(Error::UnboundVariable { name }),
    ensures
        !env.contains(name),
    decreases ss, 0int,
{
    if spec_action_stmt(ss[0], env, d).0 is Err {
        lemma_action_stmt_unbound(ss[0], env, d, name);
    } else {
        lemma_action_stmt_grows(ss[0], env, d);
        lemma_action_stmts_unbound(ss.drop_first(), spec_action_stmt(ss[0], env, d).1, d, name);
    }
}

/// Soundness of the reported name for the values of declarations.
pub proof fn lemma_decl_vals_unbound(ds: Seq<Decl>, env: Set<Symbol>, d: int, name: Symbol)
    requires
        spec_decl_vals(ds, env, d) == Err::<(), Error>(Error::UnboundVariable { name }),
    ensures
        !env.contains(name),
    decreases ds.len(),
{
    let r = match ds[0] {
        Decl::VarDecl { val, .. } => spec_expr(val, env, d),
        Decl::DefDecl { val, .. } => spec_expr(val, env, d),
        Decl::TableDecl { .. } => Ok(()),
    };
    if r is Err {
        match ds[0] {
            Decl::VarDecl { val, .. } => lemma_expr_unbound(val, env, d, name),
            Decl::DefDecl { val, .. } => lemma_expr_unbound(val, env, d, name),
            Decl::TableDecl { .. } => {},
        }
    } else {
        lemma_decl_vals_unbound(ds.drop_first(), env, d, name);
    }
}

/// Soundness of the reported name for a program: a name that resolving a
/// program reports as unbound is not bound in the scope it started from.
pub proof fn lemma_program_unbound(ss: Seq<Stmt>, env: Set<Symbol>, d: int, name: Symbol)
    requires
        spec_program(ss, env, d).0 == Err::<(), Error>(Error::UnboundVariable { name }),
    ensures
        !env.contains(name),
    decreases ss.len(),
{
    let s = ss[0];
    if spec_stmt(s, env, d).0 is Err {
        match s {
            Stmt::ActionStmt(a) => lemma_action_stmt_unbound(a, env, d, name),
            Stmt::Update { service_name, decls } => {
                if env.contains(service_name) {
                    lemma_decl_vals_unbound(decls@, env.union(decl_names(decls@)), d, name);
                }
            },
            Stmt::Service { name: sname, decls } => {
                lemma_decl_vals_unbound(
                    decls@,
                    env.insert(sname).union(decl_names(decls@)),
                    d,
                    name,
                );
            },
            Stmt::Test { service_name, stmts } => {
                if env.contains(service_name) {
                    lemma_action_stmts_unbound(stmts@, env, d, name);
                }
            },
            Stmt::Watch { expr } => lemma_expr_unbound(expr, env, d, name),
            _ => {},
        }
    } else {
        lemma_stmt_scope(s, env, d);
        lemma_program_unbound(ss.drop_first(), spec_stmt(s, env, d).1, d, name);
    }
}

// ---------------------------------------------------------------------
// The depth limit: how deeply a node nests scopes, and when resolution
// reports that it nests too deeply.
// ---------------------------------------------------------------------

/// The larger of two depths.
pub open spec fn max_depth(a: nat, b: nat) -> nat {
    if a >= b {
        a
    } else {
        b
    }
}

/// How many scopes (action blocks, function bodies, closures) an
/// expression nests, at its deepest.
pub open spec fn expr_scope_depth(e: Expr) -> nat
    decreases e, 0int,
{
    match e {
        Expr::Literal { val } => value_scope_depth(val),
        Expr::Html(template) => exprs_scope_depth(template.exprs@),
        Expr::Variable { .. } => 0,
        Expr::Tuple { val } => exprs_scope_depth(val@),
        Expr::KeyVal { value, .. } => expr_scope_depth(*value),
        Expr::Unop { expr, .. } => expr_scope_depth(*expr),
        Expr::Binop { expr1, expr2, .. } => max_depth(
            expr_scope_depth(*expr1),
            expr_scope_depth(*expr2),
        ),
        Expr::If { cond, expr1, expr2 } => max_depth(
            expr_scope_depth(*cond),
            max_depth(expr_scope_depth(*expr1), expr_scope_depth(*expr2)),
        ),
        Expr::Func { body, .. } => 1 + expr_scope_depth(*body),
        Expr::Call { func, args } => max_depth(expr_scope_depth(*func), exprs_scope_depth(args@)),
        Expr::Action(stmts) => 1 + action_stmts_scope_depth(stmts@),
        Expr::MemberAccess { .. } => 0,
        Expr::Select { where_clause, .. } => expr_scope_depth(*where_clause),
        Expr::Table { records, .. } => exprs_scope_depth(records@),
        Expr::Fold { operation, identity, .. } => max_depth(
            expr_scope_depth(*operation),
            expr_scope_depth(*identity),
        ),
        Expr::List(exprs) => exprs_scope_depth(exprs@),
        Expr::Range { start, end } => max_depth(expr_scope_depth(*start), expr_scope_depth(*end)),
    }
}

/// The deepest nesting of scopes among a sequence of expressions.
pub open spec fn exprs_scope_depth(es: Seq<Expr>) -> nat
    decreases es, 0int,
{
    if es.len() == 0 {
        0
    } else {
        max_depth(expr_scope_depth(es[0]), exprs_scope_depth(es.drop_first()))
    }
}

/// How many scopes a value nests, at its deepest.
pub open spec fn value_scope_depth(v: Value) -> nat
    decreases v, 0int,
{
    match v {
        Value::Closure { body, .. } => 1 + expr_scope_depth(*body),
        Value::ActionClosure { stmts, .. } => 1 + action_stmts_scope_depth(stmts@),
        Value::List { vals } => values_scope_depth(vals@),
        _ => 0,
    }
}

/// The deepest nesting of scopes among a sequence of values.
pub open spec fn values_scope_depth(vs: Seq<Value>) -> nat
    decreases vs, 0int,
{
    if vs.len() == 0 {
        0
    } else {
        max_depth(value_scope_depth(vs[0]), values_scope_depth(vs.drop_first()))
    }
}

/// How many scopes an action statement nests, at its deepest (the body
/// of a loop is a scope of its own but does not count toward the limit).
pub open spec fn action_stmt_scope_depth(s: ActionStmt) -> nat
    decreases s, 0int,
{
    match s {
        ActionStmt::Let { expr, .. } => expr_scope_depth(expr),
        ActionStmt::Expr(expr) => expr_scope_depth(expr),
        ActionStmt::Do(expr) => expr_scope_depth(expr),
        ActionStmt::Assert(expr, _) => expr_scope_depth(expr),
        ActionStmt::Assign { expr, .. } => expr_scope_depth(expr),
        ActionStmt::Insert { row, .. } => expr_scope_depth(row),
        ActionStmt::For { iterable, body, .. } => max_depth(
            expr_scope_depth(iterable),
            action_stmts_scope_depth(body@),
        ),
    }
}

/// The deepest nesting of scopes among a sequence of action statements.
pub open spec fn action_stmts_scope_depth(ss: Seq<ActionStmt>) -> nat
    decreases ss, 0int,
{
    if ss.len() == 0 {
        0
    } else {
        max_depth(action_stmt_scope_depth(ss[0]), action_stmts_scope_depth(ss.drop_first()))
    }
}

/// The depth limit, for expressions: resolution at a depth `d` within the
/// limit succeeds only if the expression nests at most `MAX_SCOPE_DEPTH - d` scopes, and
/// reports the depth limit only if it nests more.
pub proof fn lemma_expr_depth(e: Expr, env: Set<Symbol>, d: int)
    ensures
        d <= MAX_SCOPE_DEPTH && spec_expr(e, env, d) is Ok ==> d + expr_scope_depth(e) <= MAX_SCOPE_DEPTH,
        spec_expr(e, env, d) == Err::<(), Error>(Error::DepthLimit) ==> d + expr_scope_depth(e)
            > MAX_SCOPE_DEPTH,
    decreases e, 0int,
{
    match e {
        Expr::Literal { val } => lemma_value_depth(val, env, d),
        Expr::Html(template) => lemma_exprs_depth(template.exprs@, env, d),
        Expr::Variable { .. } => {},
        Expr::Tuple { val } => lemma_exprs_depth(val@, env, d),
        Expr::KeyVal { value, .. } => lemma_expr_depth(*value, env, d),
        Expr::Unop { expr, .. } => lemma_expr_depth(*expr, env, d),
        Expr::Binop { expr1, expr2, .. } => {
            lemma_expr_depth(*expr1, env, d);
            lemma_expr_depth(*expr2, env, d);
        },
        Expr::If { cond, expr1, expr2 } => {
            lemma_expr_depth(*cond, env, d);
            lemma_expr_depth(*expr1, env, d);
            lemma_expr_depth(*expr2, env, d);
        },
        Expr::Func { params, body, .. } => lemma_function_body_depth(params@, *body, env, d),
        Expr::Call { func, args } => {
            lemma_expr_depth(*func, env, d);
            lemma_exprs_depth(args@, env, d);
        },
        Expr::Action(stmts) => lemma_block_depth(stmts@, env, d),
        Expr::MemberAccess { .. } => {},
        Expr::Select { where_clause, .. } => lemma_expr_depth(*where_clause, env, d),
        Expr::Table { records, .. } => lemma_exprs_depth(records@, env, d),
        Expr::Fold { operation, identity, .. } => {
            lemma_expr_depth(*operation, env, d);
            lemma_expr_depth(*identity, env, d);
        },
        Expr::List(exprs) => lemma_exprs_depth(exprs@, env, d),
        Expr::Range { start, end } => {
            lemma_expr_depth(*start, env, d);
            lemma_expr_depth(*end, env, d);
        },
    }
}

/// The depth limit, for sequences of expressions.
pub proof fn lemma_exprs_depth(es: Seq<Expr>, env: Set<Symbol>, d: int)
    ensures
        d <= MAX_SCOPE_DEPTH && spec_exprs(es, env, d) is Ok ==> d + exprs_scope_depth(es) <= MAX_SCOPE_DEPTH,
        spec_exprs(es, env, d) == Err::<(), Error>(Error::DepthLimit) ==> d + exprs_scope_depth(es)
            > MAX_SCOPE_DEPTH,
    decreases es, 0int,
{
    if es.len() > 0 {
        lemma_expr_depth(es[0], env, d);
        lemma_exprs_depth(es.drop_first(), env, d);
    }
}

/// The depth limit, for values.
pub proof fn lemma_value_depth(v: Value, env: Set<Symbol>, d: int)
    ensures
        d <= MAX_SCOPE_DEPTH && spec_value(v, env, d) is Ok ==> d + value_scope_depth(v) <= MAX_SCOPE_DEPTH,
        spec_value(v, env, d) == Err::<(), Error>(Error::DepthLimit) ==> d + value_scope_depth(v)
            > MAX_SCOPE_DEPTH,
    decreases v, 0int,
{
    match v {
        Value::Closure { params, body, .. } => lemma_function_body_depth(params@, *body, env, d),
        Value::ActionClosure { stmts, .. } => lemma_block_depth(stmts@, env, d),
        Value::List { vals } => lemma_values_depth(vals@, env, d),
        _ => {},
    }
}

/// The depth limit, for sequences of values.
pub proof fn lemma_values_depth(vs: Seq<Value>, env: Set<Symbol>, d: int)
    ensures
        d <= MAX_SCOPE_DEPTH && spec_values(vs, env, d) is Ok ==> d + values_scope_depth(vs) <= MAX_SCOPE_DEPTH,
        spec_values(vs, env, d) == Err::<(), Error>(Error::DepthLimit) ==> d + values_scope_depth(vs)
            > MAX_SCOPE_DEPTH,
    decreases vs, 0int,
{
    if vs.len() > 0 {
        lemma_value_depth(vs[0], env, d);
        lemma_values_depth(vs.drop_first(), env, d);
    }
}

/// The depth limit, for function bodies: one scope deeper.
pub proof fn lemma_function_body_depth(ps: Seq<Param>, body: Expr, env: Set<Symbol>, d: int)
    ensures
        d <= MAX_SCOPE_DEPTH && spec_function_body(ps, body, env, d) is Ok ==> d + 1 + expr_scope_depth(body)
            <= MAX_SCOPE_DEPTH,
        spec_function_body(ps, body, env, d) == Err::<(), Error>(Error::DepthLimit) ==> d + 1
            + expr_scope_depth(body) > MAX_SCOPE_DEPTH,
    decreases body, 1int,
{
    lemma_expr_depth(body, env.union(param_names(ps)), d + 1);
}

/// The depth limit, for action blocks: one scope deeper.
pub proof fn lemma_block_depth(ss: Seq<ActionStmt>, env: Set<Symbol>, d: int)
    ensures
        d <= MAX_SCOPE_DEPTH && spec_block(ss, env, d) is Ok ==> d + 1 + action_stmts_scope_depth(ss) <= MAX_SCOPE_DEPTH,
        spec_block(ss, env, d) == Err::<(), Error>(Error::DepthLimit) ==> d + 1
            + action_stmts_scope_depth(ss) > MAX_SCOPE_DEPTH,
    decreases ss, 1int,
{
    lemma_action_stmts_depth(ss, env, d + 1);
}

/// The depth limit, for action statements.
pub proof fn lemma_action_stmt_depth(s: ActionStmt, env: Set<Symbol>, d: int)
    ensures
        d <= MAX_SCOPE_DEPTH && spec_action_stmt(s, env, d).0 is Ok ==> d + action_stmt_scope_depth(s) <= MAX_SCOPE_DEPTH,
        spec_action_stmt(s, env, d).0 == Err::<(), Error>(Error::DepthLimit) ==> d
            + action_stmt_scope_depth(s) > MAX_SCOPE_DEPTH,
    decreases s, 0int,
{
    match s {
        ActionStmt::Let { expr, .. } => lemma_expr_depth(expr, env, d),
        ActionStmt::Expr(expr) => lemma_expr_depth(expr, env, d),
        ActionStmt::Do(expr) => lemma_expr_depth(expr, env, d),
        ActionStmt::Assert(expr, _) => lemma_expr_depth(expr, env, d),
        ActionStmt::Assign { expr, .. } => lemma_expr_depth(expr, env, d),
        ActionStmt::Insert { row, .. } => lemma_expr_depth(row, env, d),
        ActionStmt::For { var, iterable, body } => {
            lemma_expr_depth(iterable, env, d);
            lemma_action_stmts_depth(body@, env.insert(var), d);
        },
    }
}

/// The depth limit, for sequences of action statements.
pub proof fn lemma_action_stmts_depth(ss: Seq<ActionStmt>, env: Set<Symbol>, d: int)
    ensures
        d <= MAX_SCOPE_DEPTH && spec_action_stmts(ss, env, d).0 is Ok ==> d + action_stmts_scope_depth(ss)
            <= MAX_SCOPE_DEPTH,
        spec_action_stmts(ss, env, d).0 == Err::<(), Error>(Error::DepthLimit) ==> d
            + action_stmts_scope_depth(ss) > MAX_SCOPE_DEPTH,
    decreases ss, 0int,
{
    if ss.len() > 0 {
        lemma_action_stmt_depth(ss[0], env, d);
        lemma_action_stmts_depth(ss.drop_first(), spec_action_stmt(ss[0], env, d).1, d);
    }
}

} // verus!
