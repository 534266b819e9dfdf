//! What resolution accepts, told by free names: the names that a node
//! uses without binding them itself. Resolution of a node succeeds exactly
//! when every free name of the node is bound in the scope and the node
//! nests scopes within the depth limit; a name it reports as unbound is a
//! free name of the node that the scope does not bind.
use crate::runtime::ast::{ActionStmt, Decl, Expr, Stmt, Value};
use crate::runtime::interner::Symbol;
use crate::runtime::limits::MAX_SCOPE_DEPTH;
use crate::runtime::nameres::properties::{
    action_stmt_scope_depth, action_stmts_scope_depth, expr_scope_depth, exprs_scope_depth,
    max_depth, value_scope_depth, values_scope_depth,
};
use crate::runtime::nameres::{
    decl_names, param_names, spec_action_stmt, spec_action_stmts, spec_block, spec_decl_vals,
    spec_expr, spec_exprs, spec_function_body, spec_program, spec_resolve, spec_service,
    spec_stmt, spec_value, spec_values, Error,
};
use crate::runtime::tt::Param;
use vstd::prelude::*;

verus! {

/// The set that holds just `name`.
pub open spec fn just(name: Symbol) -> Set<Symbol> {
    Set::empty().insert(name)
}

/// The names of all the parameters of a list.
pub open spec fn params_bound(ps: Seq<Param>) -> Set<Symbol> {
    Set::new(|x: Symbol| exists|i: int| 0 <= i < ps.len() && ps[i].name == x)
}

/// The free names of an expression.
pub open spec fn free_expr(e: Expr) -> Set<Symbol>
    decreases e,
{
    match e {
        Expr::Literal { val } => free_value(val),
        Expr::Html(template) => free_exprs(template.exprs@),
        Expr::Variable { name } => just(name),
        Expr::Tuple { val } => free_exprs(val@),
        Expr::KeyVal { value, .. } => free_expr(*value),
        Expr::Unop { expr, .. } => free_expr(*expr),
        Expr::Binop { expr1, expr2, .. } => free_expr(*expr1).union(free_expr(*expr2)),
        Expr::If { cond, expr1, expr2 } => free_expr(*cond).union(free_expr(*expr1)).union(
            free_expr(*expr2),
        ),
        Expr::Func { params, body, .. } => free_expr(*body).difference(params_bound(params@)),
        Expr::Call { func, args } => free_expr(*func).union(free_exprs(args@)),
        Expr::Action(stmts) => free_action_stmts(stmts@),
        Expr::MemberAccess { service_name, .. } => just(service_name),
        Expr::Select { table_name, where_clause, .. } => just(table_name).union(
            free_expr(*where_clause),
        ),
        Expr::Table { records, .. } => free_exprs(records@),
        Expr::Fold { table_name, operation, identity, .. } => just(table_name).union(
            free_expr(*operation),
        ).union(free_expr(*identity)),
        Expr::List(exprs) => free_exprs(exprs@),
        Expr::Range { start, end } => free_expr(*start).union(free_expr(*end)),
    }
}

/// The free names of a sequence of expressions.
pub open spec fn free_exprs(es: Seq<Expr>) -> Set<Symbol>
    decreases es,
{
    if es.len() == 0 {
        Set::empty()
    } else {
        free_expr(es[0]).union(free_exprs(es.drop_first()))
    }
}

/// The free names of a value.
pub open spec fn free_value(v: Value) -> Set<Symbol>
    decreases v,
{
    match v {
        Value::Closure { params, body, .. } => free_expr(*body).difference(params_bound(params@)),
        Value::ActionClosure { stmts, .. } => free_action_stmts(stmts@),
        Value::List { vals } => free_values(vals@),
        _ => Set::empty(),
    }
}

/// The free names of a sequence of values.
pub open spec fn free_values(vs: Seq<Value>) -> Set<Symbol>
    decreases vs,
{
    if vs.len() == 0 {
        Set::empty()
    } else {
        free_value(vs[0]).union(free_values(vs.drop_first()))
    }
}

/// The name that an action statement binds for the statements after it.
pub open spec fn let_bound(s: ActionStmt) -> Set<Symbol> {
    match s {
        ActionStmt::Let { name, .. } => just(name),
        _ => Set::empty(),
    }
}

/// The free names of an action statement.
pub open spec fn free_action_stmt(s: ActionStmt) -> Set<Symbol>
    decreases s,
{
    match s {
        ActionStmt::Let { expr, .. } => free_expr(expr),
        ActionStmt::Expr(expr) => free_expr(expr),
        ActionStmt::Do(expr) => free_expr(expr),
        ActionStmt::Assert(expr, _) => free_expr(expr),
        ActionStmt::Assign { name, expr } => just(name).union(free_expr(expr)),
        ActionStmt::Insert { row, table_name } => just(table_name).union(free_expr(row)),
        ActionStmt::For { var, iterable, body } => free_expr(iterable).union(
            free_action_stmts(body@).difference(just(var)),
        ),
    }
}

/// The free names of a sequence of action statements: a `let` binds its
/// name for the statements after it.
pub open spec fn free_action_stmts(ss: Seq<ActionStmt>) -> Set<Symbol>
    decreases ss,
{
    if ss.len() == 0 {
        Set::empty()
    } else {
        free_action_stmt(ss[0]).union(free_action_stmts(ss.drop_first()).difference(let_bound(ss[0])))
    }
}

/// The two facts that tie an outcome to the free names of a node: success
/// means every free name is bound, and a name reported as unbound is a free
/// name that the scope does not bind.
pub open spec fn respects_free_names(r: Result<(), Error>, free: Set<Symbol>, env: Set<Symbol>) -> bool {
    &&& r is Ok ==> free.subset_of(env)
    &&& r matches Err(Error::UnboundVariable { name }) ==> free.contains(name) && !env.contains(name)
}

/// The parameters that a function binds are the names of its parameters.
pub proof fn lemma_param_names(ps: Seq<Param>)
    ensures
        param_names(ps) == params_bound(ps),
    decreases ps.len(),
{
    if ps.len() > 0 {
        let init = ps.drop_last();
        lemma_param_names(init);
        assert forall|x: Symbol| #[trigger] params_bound(ps).contains(x) == param_names(ps).contains(x) by {
            if params_bound(ps).contains(x) {
                let i = choose|i: int| 0 <= i < ps.len() && ps[i].name == x;
                if i < ps.len() - 1 {
                    assert(init[i].name == x);
                    assert(params_bound(init).contains(x));
                }
            }
            if params_bound(init).contains(x) {
                let i = choose|i: int| 0 <= i < init.len() && init[i].name == x;
                assert(ps[i].name == x);
            }
            if x == ps.last().name {
                assert(ps[ps.len() - 1].name == x);
            }
        }
        assert(param_names(ps) =~= params_bound(ps));
    } else {
        assert(param_names(ps) =~= params_bound(ps));
    }
}

/// On success, an action statement adds to the scope exactly the name
/// that it binds for the statements after it.
pub proof fn lemma_action_stmt_binds(s: ActionStmt, env: Set<Symbol>, d: int)
    ensures
        spec_action_stmt(s, env, d).0 is Ok ==> spec_action_stmt(s, env, d).1 == env.union(
            let_bound(s),
        ),
{
    match s {
        ActionStmt::Let { name, .. } => {
            assert(env.insert(name) =~= env.union(just(name)));
        },
        _ => {
            assert(env =~= env.union(Set::<Symbol>::empty()));
        },
    }
}

/// Resolution of an expression succeeds exactly when its free names are
/// bound (within the depth limit), and reports as unbound only free names
/// that the scope does not bind.
pub proof fn lemma_expr_free(e: Expr, env: Set<Symbol>, d: int)
    ensures
        respects_free_names(spec_expr(e, env, d), free_expr(e), env),
        free_expr(e).subset_of(env) && d + expr_scope_depth(e) <= MAX_SCOPE_DEPTH ==> spec_expr(
            e,
            env,
            d,
        ) is Ok,
    decreases e, 0int,
{
    match e {
        Expr::Literal { val } => lemma_value_free(val, env, d),
        Expr::Html(template) => lemma_exprs_free(template.exprs@, env, d),
        Expr::Variable { name } => {},
        Expr::Tuple { val } => lemma_exprs_free(val@, env, d),
        Expr::KeyVal { value, .. } => lemma_expr_free(*value, env, d),
        Expr::Unop { expr, .. } => lemma_expr_free(*expr, env, d),
        Expr::Binop { expr1, expr2, .. } => {
            lemma_expr_free(*expr1, env, d);
            lemma_expr_free(*expr2, env, d);
        },
        Expr::If { cond, expr1, expr2 } => {
            lemma_expr_free(*cond, env, d);
            lemma_expr_free(*expr1, env, d);
            lemma_expr_free(*expr2, env, d);
        },
        Expr::Func { params, body, .. } => lemma_function_body_free(params@, *body, env, d),
        Expr::Call { func, args } => {
            lemma_expr_free(*func, env, d);
            lemma_exprs_free(args@, env, d);
        },
        Expr::Action(stmts) => lemma_block_free(stmts@, env, d),
        Expr::MemberAccess { .. } => {},
        Expr::Select { where_clause, .. } => lemma_expr_free(*where_clause, env, d),
        Expr::Table { records, .. } => lemma_exprs_free(records@, env, d),
        Expr::Fold { operation, identity, .. } => {
            lemma_expr_free(*operation, env, d);
            lemma_expr_free(*identity, env, d);
        },
        Expr::List(exprs) => lemma_exprs_free(exprs@, env, d),
        Expr::Range { start, end } => {
            lemma_expr_free(*start, env, d);
            lemma_expr_free(*end, env, d);
        },
    }
}

/// Free names and resolution, for sequences of expressions.
pub proof fn lemma_exprs_free(es: Seq<Expr>, env: Set<Symbol>, d: int)
    ensures
        respects_free_names(spec_exprs(es, env, d), free_exprs(es), env),
        free_exprs(es).subset_of(env) && d + exprs_scope_depth(es) <= MAX_SCOPE_DEPTH ==> spec_exprs(
            es,
            env,
            d,
        ) is Ok,
    decreases es, 0int,
{
    if es.len() > 0 {
        lemma_expr_free(es[0], env, d);
        lemma_exprs_free(es.drop_first(), env, d);
    }
}

/// Free names and resolution, for values.
pub proof fn lemma_value_free(v: Value, env: Set<Symbol>, d: int)
    ensures
        respects_free_names(spec_value(v, env, d), free_value(v), env),
        free_value(v).subset_of(env) && d + value_scope_depth(v) <= MAX_SCOPE_DEPTH ==> spec_value(
            v,
            env,
            d,
        ) is Ok,
    decreases v, 0int,
{
    match v {
        Value::Closure { params, body, .. } => lemma_function_body_free(params@, *body, env, d),
        Value::ActionClosure { stmts, .. } => lemma_block_free(stmts@, env, d),
        Value::List { vals } => lemma_values_free(vals@, env, d),
        _ => {},
    }
}

/// Free names and resolution, for sequences of values.
pub proof fn lemma_values_free(vs: Seq<Value>, env: Set<Symbol>, d: int)
    ensures
        respects_free_names(spec_values(vs, env, d), free_values(vs), env),
        free_values(vs).subset_of(env) && d + values_scope_depth(vs) <= MAX_SCOPE_DEPTH
            ==> spec_values(vs, env, d) is Ok,
    decreases vs, 0int,
{
    if vs.len() > 0 {
        lemma_value_free(vs[0], env, d);
        lemma_values_free(vs.drop_first(), env, d);
    }
}

/// Free names and resolution, for function bodies: every parameter is
/// bound in the body, and the body nests one scope deeper.
pub proof fn lemma_function_body_free(ps: Seq<Param>, body: Expr, env: Set<Symbol>, d: int)
    ensures
        respects_free_names(
            spec_function_body(ps, body, env, d),
            free_expr(body).difference(params_bound(ps)),
            env,
        ),
        free_expr(body).difference(params_bound(ps)).subset_of(env) && d + 1 + expr_scope_depth(
            body,
        ) <= MAX_SCOPE_DEPTH ==> spec_function_body(ps, body, env, d) is Ok,
    decreases body, 1int,
{
    lemma_param_names(ps);
    lemma_expr_free(body, env.union(params_bound(ps)), d + 1);
    if free_expr(body).difference(params_bound(ps)).subset_of(env) {
        assert(free_expr(body).subset_of(env.union(params_bound(ps))));
    }
}

/// Free names and resolution, for action blocks, which nest one scope
/// deeper.
pub proof fn lemma_block_free(ss: Seq<ActionStmt>, env: Set<Symbol>, d: int)
    ensures
        respects_free_names(spec_block(ss, env, d), free_action_stmts(ss), env),
        free_action_stmts(ss).subset_of(env) && d + 1 + action_stmts_scope_depth(ss)
            <= MAX_SCOPE_DEPTH ==> spec_block(ss, env, d) is Ok,
    decreases ss, 1int,
{
    lemma_action_stmts_free(ss, env, d + 1);
}

/// Free names and resolution, for action statements.
pub proof fn lemma_action_stmt_free(s: ActionStmt, env: Set<Symbol>, d: int)
    ensures
        respects_free_names(spec_action_stmt(s, env, d).0, free_action_stmt(s), env),
        free_action_stmt(s).subset_of(env) && d + action_stmt_scope_depth(s) <= MAX_SCOPE_DEPTH
            ==> spec_action_stmt(s, env, d).0 is Ok,
    decreases s, 0int,
{
    match s {
        ActionStmt::Let { expr, .. } => lemma_expr_free(expr, env, d),
        ActionStmt::Expr(expr) => lemma_expr_free(expr, env, d),
        ActionStmt::Do(expr) => lemma_expr_free(expr, env, d),
        ActionStmt::Assert(expr, _) => lemma_expr_free(expr, env, d),
        ActionStmt::Assign { expr, .. } => lemma_expr_free(expr, env, d),
        ActionStmt::Insert { row, .. } => lemma_expr_free(row, env, d),
        ActionStmt::For { var, iterable, body } => {
            lemma_expr_free(iterable, env, d);
            lemma_action_stmts_free(body@, env.insert(var), d);
            if free_action_stmt(s).subset_of(env) {
                assert(free_action_stmts(body@).subset_of(env.insert(var)));
            }
        },
    }
}

/// Free names and resolution, for sequences of action statements.
pub proof fn lemma_action_stmts_free(ss: Seq<ActionStmt>, env: Set<Symbol>, d: int)
    ensures
        respects_free_names(spec_action_stmts(ss, env, d).0, free_action_stmts(ss), env),
        free_action_stmts(ss).subset_of(env) && d + action_stmts_scope_depth(ss) <= MAX_SCOPE_DEPTH
            ==> spec_action_stmts(ss, env, d).0 is Ok,
    decreases ss, 0int,
{
    if ss.len() > 0 {
        let env1 = spec_action_stmt(ss[0], env, d).1;
        lemma_action_stmt_free(ss[0], env, d);
        lemma_action_stmt_binds(ss[0], env, d);
        lemma_action_stmts_free(ss.drop_first(), env1, d);
        if spec_action_stmt(ss[0], env, d).0 is Ok {
            if free_action_stmts(ss).subset_of(env) {
                assert(free_action_stmts(ss.drop_first()).subset_of(env1));
            }
        }
    }
}

/// The free names of the value of a declaration.
pub open spec fn free_decl(dc: Decl) -> Set<Symbol> {
    match dc {
        Decl::VarDecl { val, .. } => free_expr(val),
        Decl::DefDecl { val, .. } => free_expr(val),
        Decl::TableDecl { .. } => Set::empty(),
    }
}

/// The free names of the values of a list of declarations.
pub open spec fn free_decls(ds: Seq<Decl>) -> Set<Symbol>
    decreases ds.len(),
{
    if ds.len() == 0 {
        Set::empty()
    } else {
        free_decl(ds[0]).union(free_decls(ds.drop_first()))
    }
}

/// Whether a declaration declares `x`.
pub open spec fn declares(dc: Decl, x: Symbol) -> bool {
    match dc {
        Decl::VarDecl { name, .. } => name == x,
        Decl::DefDecl { name, .. } => name == x,
        Decl::TableDecl { name, .. } => name == x,
    }
}

/// The names that some declaration of a list declares.
pub open spec fn declared(ds: Seq<Decl>) -> Set<Symbol> {
    Set::new(|x: Symbol| exists|i: int| 0 <= i < ds.len() && declares(ds[i], x))
}

/// The free names of a service body: what its values use and none of its
/// declarations declares, whatever their order.
pub open spec fn free_service(ds: Seq<Decl>) -> Set<Symbol> {
    free_decls(ds).difference(declared(ds))
}

/// How many scopes the value of a declaration nests.
pub open spec fn decl_scope_depth(dc: Decl) -> nat {
    match dc {
        Decl::VarDecl { val, .. } => expr_scope_depth(val),
        Decl::DefDecl { val, .. } => expr_scope_depth(val),
        Decl::TableDecl { .. } => 0,
    }
}

/// The deepest nesting of scopes among the values of declarations.
pub open spec fn decls_scope_depth(ds: Seq<Decl>) -> nat
    decreases ds.len(),
{
    if ds.len() == 0 {
        0
    } else {
        max_depth(decl_scope_depth(ds[0]), decls_scope_depth(ds.drop_first()))
    }
}

/// The free names of a top-level statement.
pub open spec fn free_stmt(s: Stmt) -> Set<Symbol> {
    match s {
        Stmt::ActionStmt(a) => free_action_stmt(a),
        Stmt::Update { service_name, decls } => just(service_name).union(free_service(decls@)),
        Stmt::Connect { .. } => Set::empty(),
        Stmt::Import { .. } => Set::empty(),
        Stmt::Service { name, decls } => free_service(decls@).difference(just(name)),
        Stmt::Test { service_name, stmts } => just(service_name).union(
            free_action_stmts(stmts@),
        ),
        Stmt::Watch { expr } => free_expr(expr),
    }
}

/// The name that a top-level statement binds for the statements after it.
pub open spec fn stmt_bound(s: Stmt) -> Set<Symbol> {
    match s {
        Stmt::Import { service_name, .. } => just(service_name),
        Stmt::Service { name, .. } => just(name),
        Stmt::ActionStmt(a) => let_bound(a),
        _ => Set::empty(),
    }
}

/// The free names of a program.
pub open spec fn free_program(ss: Seq<Stmt>) -> Set<Symbol>
    decreases ss.len(),
{
    if ss.len() == 0 {
        Set::empty()
    } else {
        free_stmt(ss[0]).union(free_program(ss.drop_first()).difference(stmt_bound(ss[0])))
    }
}

/// How many scopes a top-level statement nests.
pub open spec fn stmt_scope_depth(s: Stmt) -> nat {
    match s {
        Stmt::ActionStmt(a) => action_stmt_scope_depth(a),
        Stmt::Update { decls, .. } => decls_scope_depth(decls@),
        Stmt::Service { decls, .. } => decls_scope_depth(decls@),
        Stmt::Test { stmts, .. } => action_stmts_scope_depth(stmts@),
        Stmt::Watch { expr } => expr_scope_depth(expr),
        _ => 0,
    }
}

/// The deepest nesting of scopes in a program.
pub open spec fn program_scope_depth(ss: Seq<Stmt>) -> nat
    decreases ss.len(),
{
    if ss.len() == 0 {
        0
    } else {
        max_depth(stmt_scope_depth(ss[0]), program_scope_depth(ss.drop_first()))
    }
}

/// The names that a service binds for its declarations are the names
/// that its declarations declare.
pub proof fn lemma_decl_names_declared(ds: Seq<Decl>)
    ensures
        decl_names(ds) == declared(ds),
    decreases ds.len(),
{
    if ds.len() > 0 {
        let init = ds.drop_last();
        lemma_decl_names_declared(init);
        assert forall|x: Symbol| #[trigger] declared(ds).contains(x) == decl_names(ds).contains(x) by {
            if declared(ds).contains(x) {
                let i = choose|i: int| 0 <= i < ds.len() && declares(ds[i], x);
                if i < ds.len() - 1 {
                    assert(declares(init[i], x));
                    assert(declared(init).contains(x));
                }
            }
            if declared(init).contains(x) {
                let i = choose|i: int| 0 <= i < init.len() && declares(init[i], x);
                assert(declares(ds[i], x));
            }
            if declares(ds.last(), x) {
                assert(declares(ds[ds.len() - 1], x));
            }
        }
        assert(decl_names(ds) =~= declared(ds));
    } else {
        assert(decl_names(ds) =~= declared(ds));
    }
}

/// Free names and resolution, for the values of declarations.
pub proof fn lemma_decl_vals_free(ds: Seq<Decl>, env: Set<Symbol>, d: int)
    ensures
        respects_free_names(spec_decl_vals(ds, env, d), free_decls(ds), env),
        free_decls(ds).subset_of(env) && d + decls_scope_depth(ds) <= MAX_SCOPE_DEPTH
            ==> spec_decl_vals(ds, env, d) is Ok,
    decreases ds.len(),
{
    if ds.len() > 0 {
        match ds[0] {
            Decl::VarDecl { val, .. } => lemma_expr_free(val, env, d),
            Decl::DefDecl { val, .. } => lemma_expr_free(val, env, d),
            Decl::TableDecl { .. } => {},
        }
        lemma_decl_vals_free(ds.drop_first(), env, d);
    }
}

/// Hoisting, told by free names: resolving the declarations of a service
/// succeeds exactly when every name that a value uses is bound outside or
/// declared by some declaration of the service, wherever it stands; var
/// and def values alike.
pub proof fn lemma_service_free(ds: Seq<Decl>, env: Set<Symbol>, d: int)
    ensures
        respects_free_names(spec_service(ds, env, d), free_service(ds), env),
        free_service(ds).subset_of(env) && d + decls_scope_depth(ds) <= MAX_SCOPE_DEPTH
            ==> spec_service(ds, env, d) is Ok,
{
    lemma_decl_names_declared(ds);
    lemma_decl_vals_free(ds, env.union(declared(ds)), d);
    if free_service(ds).subset_of(env) {
        assert(free_decls(ds).subset_of(env.union(declared(ds))));
    }
}

/// On success, a top-level statement adds to the program scope exactly
/// the name that it binds.
pub proof fn lemma_stmt_binds(s: Stmt, env: Set<Symbol>, d: int)
    ensures
        spec_stmt(s, env, d).0 is Ok ==> spec_stmt(s, env, d).1 == env.union(stmt_bound(s)),
{
    match s {
        Stmt::ActionStmt(a) => lemma_action_stmt_binds(a, env, d),
        Stmt::Import { service_name, .. } => {
            assert(env.insert(service_name) =~= env.union(just(service_name)));
        },
        Stmt::Service { name, .. } => {
            assert(env.insert(name) =~= env.union(just(name)));
        },
        _ => {
            assert(env =~= env.union(Set::<Symbol>::empty()));
        },
    }
}

/// Free names and resolution, for top-level statements.
pub proof fn lemma_stmt_free(s: Stmt, env: Set<Symbol>, d: int)
    ensures
        respects_free_names(spec_stmt(s, env, d).0, free_stmt(s), env),
        free_stmt(s).subset_of(env) && d + stmt_scope_depth(s) <= MAX_SCOPE_DEPTH ==> spec_stmt(
            s,
            env,
            d,
        ).0 is Ok,
{
    match s {
        Stmt::ActionStmt(a) => lemma_action_stmt_free(a, env, d),
        Stmt::Update { decls, .. } => lemma_service_free(decls@, env, d),
        Stmt::Service { name, decls } => {
            lemma_service_free(decls@, env.insert(name), d);
            if free_stmt(s).subset_of(env) {
                assert(free_service(decls@).subset_of(env.insert(name)));
            }
        },
        Stmt::Test { stmts, .. } => lemma_action_stmts_free(stmts@, env, d),
        Stmt::Watch { expr } => lemma_expr_free(expr, env, d),
        _ => {},
    }
}

/// Free names and resolution, for programs resolved in a scope.
pub proof fn lemma_program_free(ss: Seq<Stmt>, env: Set<Symbol>, d: int)
    ensures
        respects_free_names(spec_program(ss, env, d).0, free_program(ss), env),
        free_program(ss).subset_of(env) && d + program_scope_depth(ss) <= MAX_SCOPE_DEPTH
            ==> spec_program(ss, env, d).0 is Ok,
    decreases ss.len(),
{
    if ss.len() > 0 {
        let env1 = spec_stmt(ss[0], env, d).1;
        lemma_stmt_free(ss[0], env, d);
        lemma_stmt_binds(ss[0], env, d);
        lemma_program_free(ss.drop_first(), env1, d);
        if spec_stmt(ss[0], env, d).0 is Ok {
            if free_program(ss).subset_of(env) {
                assert(free_program(ss.drop_first()).subset_of(env1));
            }
        }
    }
}

/// What `resolve` accepts: a whole program resolves exactly when it has
/// no free names and nests at most `MAX_SCOPE_DEPTH` scopes; a name it
/// reports as unbound is a free name of the program.
pub proof fn lemma_resolve_free(ss: Seq<Stmt>)
    ensures
        spec_resolve(ss) is Ok ==> free_program(ss) == Set::<Symbol>::empty(),
        free_program(ss) == Set::<Symbol>::empty() && program_scope_depth(ss) <= MAX_SCOPE_DEPTH
            ==> spec_resolve(ss) is Ok,
        spec_resolve(ss) matches Err(Error::UnboundVariable { name }) ==> free_program(
            ss,
        ).contains(name),
{
    lemma_program_free(ss, Set::empty(), 0);
    if spec_resolve(ss) is Ok {
        assert(free_program(ss) =~= Set::<Symbol>::empty());
    }
}

} // verus!
