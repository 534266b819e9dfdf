//! Name resolution: scopes, limits, error messages and the laws of the
//! pass, checked on concrete programs.

use meerkat_lib::runtime::ast::{ActionStmt, BinOp, Decl, Expr, Stmt, Value};
use meerkat_lib::runtime::html::HtmlTemplate;
use meerkat_lib::runtime::limits::MAX_SCOPE_DEPTH;
use meerkat_lib::runtime::nameres::{resolve, Error, Resolver};
use meerkat_lib::runtime::tt::Param;
use meerkat_lib::runtime::{Env, Symbol};

fn int_lit(val: i64) -> Expr {
    Expr::Literal {
        val: Value::Int { val },
    }
}

fn var(id: u32) -> Expr {
    Expr::Variable { name: Symbol(id) }
}

fn nest_actions(mut expr: Expr, levels: usize) -> Expr {
    for _ in 0..levels {
        expr = Expr::Action(vec![ActionStmt::Expr(expr)]);
    }
    expr
}

fn nest_funcs(mut expr: Expr, levels: usize) -> Expr {
    for _ in 0..levels {
        expr = Expr::Func {
            params: vec![],
            body: Box::new(expr),
            return_ty: None,
        };
    }
    expr
}

#[test]
fn test_error_messages() {
    assert_eq!(
        Error::UnboundVariable { name: Symbol(42) }.to_string(),
        "Unbound variable: 42"
    );
    assert_eq!(
        Error::UnboundVariable { name: Symbol(0) }.to_string(),
        "Unbound variable: 0"
    );
    assert_eq!(Error::DepthLimit.to_string(), "Depth limit exceeded");
}

#[test]
fn test_symbol_printed_form() {
    assert_eq!(Symbol(7).to_string(), "7");
    assert_eq!(Symbol(10).to_string(), "10");
    assert_eq!(Symbol(4294967295).to_string(), "4294967295");
}

#[test]
fn test_env_nested_scopes() {
    let mut root = Env::new(None);
    assert!(root.find(Symbol(1)).is_none());
    root.bind(Symbol(1));
    assert!(root.find(Symbol(1)).is_some());
    let mut child = Env::new(Some(&root));
    assert!(child.find(Symbol(1)).is_some());
    child.bind(Symbol(2));
    assert!(child.find(Symbol(2)).is_some());
    assert!(root.find(Symbol(2)).is_none());
}

#[test]
fn test_depth_limit_boundary_actions() {
    let env = Env::new(None);
    let mut resolver = Resolver::new();
    let at_limit = nest_actions(int_lit(0), MAX_SCOPE_DEPTH);
    assert_eq!(resolver.resolve_expr(&at_limit, &env), Ok(()));
    let past_limit = nest_actions(int_lit(0), MAX_SCOPE_DEPTH + 1);
    assert_eq!(resolver.resolve_expr(&past_limit, &env), Err(Error::DepthLimit));
    assert_eq!(resolver.depth(), 0);
}

#[test]
fn test_depth_limit_boundary_functions() {
    let env = Env::new(None);
    let mut resolver = Resolver::new();
    let at_limit = nest_funcs(int_lit(0), MAX_SCOPE_DEPTH);
    assert_eq!(resolver.resolve_expr(&at_limit, &env), Ok(()));
    let past_limit = nest_funcs(int_lit(0), MAX_SCOPE_DEPTH + 1);
    assert_eq!(resolver.resolve_expr(&past_limit, &env), Err(Error::DepthLimit));
    assert_eq!(resolver.depth(), 0);
}

#[test]
fn test_depth_limit_closure_values() {
    let env = Env::new(None);
    let mut resolver = Resolver::new();
    let inner = nest_actions(int_lit(0), MAX_SCOPE_DEPTH);
    let closure = Expr::Literal {
        val: Value::Closure {
            params: vec![],
            body: Box::new(inner),
            env: vec![],
            service_name: Symbol(0),
            return_ty: None,
        },
    };
    assert_eq!(resolver.resolve_expr(&closure, &env), Err(Error::DepthLimit));
}

#[test]
fn test_first_error_is_reported() {
    let env = Env::new(None);
    let mut resolver = Resolver::new();
    let expr = Expr::Binop {
        op: BinOp::Add,
        expr1: Box::new(var(3)),
        expr2: Box::new(var(4)),
    };
    assert_eq!(
        resolver.resolve_expr(&expr, &env),
        Err(Error::UnboundVariable { name: Symbol(3) })
    );
    let deep_then_unbound = Expr::Tuple {
        val: vec![nest_actions(int_lit(0), MAX_SCOPE_DEPTH + 1), var(5)],
    };
    assert_eq!(
        resolver.resolve_expr(&deep_then_unbound, &env),
        Err(Error::DepthLimit)
    );
    let unbound_then_deep = Expr::Tuple {
        val: vec![var(5), nest_actions(int_lit(0), MAX_SCOPE_DEPTH + 1)],
    };
    assert_eq!(
        resolver.resolve_expr(&unbound_then_deep, &env),
        Err(Error::UnboundVariable { name: Symbol(5) })
    );
}

#[test]
fn test_for_loop_variable_scope() {
    let i = Symbol(1);
    // action { for i in 0..5 { do i; } do i; }
    let body_uses_var = Expr::Action(vec![ActionStmt::For {
        var: i,
        iterable: Expr::Range {
            start: Box::new(int_lit(0)),
            end: Box::new(int_lit(5)),
        },
        body: vec![ActionStmt::Do(Expr::Variable { name: i })],
    }]);
    let stmts = vec![Stmt::Watch {
        expr: body_uses_var,
    }];
    assert_eq!(resolve(&stmts), Ok(()));

    let after_loop = Expr::Action(vec![
        ActionStmt::For {
            var: i,
            iterable: Expr::List(vec![int_lit(1)]),
            body: vec![],
        },
        ActionStmt::Do(Expr::Variable { name: i }),
    ]);
    let stmts = vec![Stmt::Watch { expr: after_loop }];
    assert_eq!(resolve(&stmts), Err(Error::UnboundVariable { name: i }));
}

#[test]
fn test_test_statement_scoping() {
    let s = Symbol(1);
    let x = Symbol(2);
    let stmts = vec![
        Stmt::Test {
            service_name: s,
            stmts: vec![],
        },
    ];
    assert_eq!(resolve(&stmts), Err(Error::UnboundVariable { name: s }));

    let stmts = vec![
        Stmt::Service { name: s, decls: vec![] },
        Stmt::Test {
            service_name: s,
            stmts: vec![
                ActionStmt::Let {
                    name: x,
                    ty: None,
                    expr: int_lit(1),
                },
                ActionStmt::Assert(Expr::Variable { name: x }, "x".to_string()),
            ],
        },
        Stmt::Watch {
            expr: Expr::Variable { name: x },
        },
    ];
    assert_eq!(resolve(&stmts), Err(Error::UnboundVariable { name: x }));
}

#[test]
fn test_top_level_let_binds_in_program_scope() {
    let x = Symbol(9);
    let mut env = Env::new(None);
    let mut resolver = Resolver::new();
    let stmts = vec![
        Stmt::ActionStmt(ActionStmt::Let {
            name: x,
            ty: None,
            expr: int_lit(1),
        }),
        Stmt::Watch { expr: var(9) },
    ];
    assert_eq!(resolver.resolve_program(&stmts, &mut env), Ok(()));
    assert!(env.find(x).is_some());
}

#[test]
fn test_failed_let_binds_nothing() {
    let x = Symbol(1);
    let mut env = Env::new(None);
    let mut resolver = Resolver::new();
    let stmts = vec![Stmt::ActionStmt(ActionStmt::Let {
        name: x,
        ty: None,
        expr: var(2),
    })];
    assert_eq!(
        resolver.resolve_program(&stmts, &mut env),
        Err(Error::UnboundVariable { name: Symbol(2) })
    );
    assert!(env.find(x).is_none());
}

#[test]
fn test_html_template_embedded_expressions() {
    let template = HtmlTemplate {
        texts: vec!["<p>".to_string(), "</p>".to_string()],
        exprs: vec![var(6)],
    };
    let stmts = vec![Stmt::Watch {
        expr: Expr::Html(template),
    }];
    assert_eq!(resolve(&stmts), Err(Error::UnboundVariable { name: Symbol(6) }));
}

#[test]
fn test_list_value_with_closures() {
    let p = Symbol(1);
    let closure = |body: Expr| Value::Closure {
        params: vec![Param { name: p, ty: None }],
        body: Box::new(body),
        env: vec![],
        service_name: Symbol(0),
        return_ty: None,
    };
    let ok = vec![Stmt::Watch {
        expr: Expr::Literal {
            val: Value::List {
                vals: vec![Value::Int { val: 1 }, closure(var(1))],
            },
        },
    }];
    assert_eq!(resolve(&ok), Ok(()));
    let bad = vec![Stmt::Watch {
        expr: Expr::Literal {
            val: Value::List {
                vals: vec![closure(var(1)), closure(var(2))],
            },
        },
    }];
    assert_eq!(resolve(&bad), Err(Error::UnboundVariable { name: Symbol(2) }));
}

#[test]
fn test_weakening_larger_scope() {
    // A watch on `x` fails in an empty scope and succeeds once `x` is bound;
    // a program that resolves keeps resolving when more names are bound.
    let stmts = vec![Stmt::Watch { expr: var(1) }];
    let mut resolver = Resolver::new();
    let mut empty = Env::new(None);
    assert_eq!(
        resolver.resolve_program(&stmts, &mut empty),
        Err(Error::UnboundVariable { name: Symbol(1) })
    );
    let mut larger = Env::new(None);
    larger.bind(Symbol(1));
    larger.bind(Symbol(2));
    assert_eq!(resolver.resolve_program(&stmts, &mut larger), Ok(()));
}

#[test]
fn test_service_order_independence() {
    let s = Symbol(0);
    let a = Symbol(1);
    let b = Symbol(2);
    let decls_ab = || {
        vec![
            Decl::DefDecl {
                name: a,
                ty: None,
                val: Expr::Variable { name: b },
                is_pub: true,
            },
            Decl::VarDecl {
                name: b,
                ty: None,
                val: int_lit(1),
            },
        ]
    };
    let mut reversed = decls_ab();
    reversed.reverse();
    assert_eq!(resolve(&[Stmt::Service { name: s, decls: decls_ab() }]), Ok(()));
    assert_eq!(resolve(&[Stmt::Service { name: s, decls: reversed }]), Ok(()));
}

#[test]
fn test_program_in_pieces() {
    let s = Symbol(0);
    let x = Symbol(1);
    let first = vec![Stmt::Service {
        name: s,
        decls: vec![Decl::VarDecl {
            name: x,
            ty: None,
            val: int_lit(0),
        }],
    }];
    let second = vec![Stmt::Watch {
        expr: Expr::MemberAccess {
            service_name: s,
            member_name: x,
        },
    }];
    let mut env = Env::new(None);
    let mut resolver = Resolver::new();
    assert_eq!(resolver.resolve_program(&first, &mut env), Ok(()));
    assert_eq!(resolver.resolve_program(&second, &mut env), Ok(()));
    let whole: Vec<Stmt> = vec![
        Stmt::Service {
            name: s,
            decls: vec![Decl::VarDecl {
                name: x,
                ty: None,
                val: int_lit(0),
            }],
        },
        Stmt::Watch {
            expr: Expr::MemberAccess {
                service_name: s,
                member_name: x,
            },
        },
    ];
    assert_eq!(resolve(&whole), Ok(()));
}

#[test]
fn test_import_and_connect_scope() {
    let s = Symbol(3);
    let stmts = vec![
        Stmt::Connect {
            path: "p".to_string(),
            addr: "a".to_string(),
        },
        Stmt::Import {
            path: "s".to_string(),
            service_name: s,
        },
        Stmt::Watch { expr: var(3) },
    ];
    assert_eq!(resolve(&stmts), Ok(()));
}
